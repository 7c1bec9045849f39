use guiug::batch::texture_batches;
use guiug::TextureBatch;
use guiug::TextureInfoManager;

#[test]
fn texture_ids_are_handed_out_in_registration_order() {
    let first: Vec<u8> = vec![1, 2, 3];
    let second: Vec<u8> = vec![4, 5];
    let mut manager = TextureInfoManager::default();
    assert_eq!(manager.add_texture_info(&first), 0);
    assert_eq!(manager.add_texture_info(&second), 1);
    assert_eq!(manager.get(0), Some(&first[..]));
    assert_eq!(manager.get(1), Some(&second[..]));
    assert_eq!(manager.get(2), None);
}

#[test]
fn batches_of_empty_list_are_empty() {
    assert_eq!(texture_batches(&vec![]), vec![]);
}

#[test]
fn batches_group_equal_neighbours() {
    let ids: Vec<u16> = vec![0, 0, 1, 1, 1, 2];
    assert_eq!(
        texture_batches(&ids),
        vec![
            TextureBatch { texture_id: 0, start: 0, end: 2 },
            TextureBatch { texture_id: 1, start: 2, end: 5 },
            TextureBatch { texture_id: 2, start: 5, end: 6 },
        ]
    );
}

#[test]
fn single_run_makes_single_batch() {
    let ids: Vec<u16> = vec![9, 9, 9];
    assert_eq!(
        texture_batches(&ids),
        vec![TextureBatch { texture_id: 9, start: 0, end: 3 }]
    );
}

#[test]
fn unsorted_ids_still_split_at_every_change() {
    let ids: Vec<u16> = vec![1, 0, 1];
    assert_eq!(
        texture_batches(&ids),
        vec![
            TextureBatch { texture_id: 1, start: 0, end: 1 },
            TextureBatch { texture_id: 0, start: 1, end: 2 },
            TextureBatch { texture_id: 1, start: 2, end: 3 },
        ]
    );
}
