use rust_extensions::binary_search::{binary_search, EntityWithBinarySearchKey};

pub struct Entity {
    value: i64,
}

impl EntityWithBinarySearchKey<i64> for Entity {
    fn key_of(&self) -> i64 {
        self.value
    }

    fn get_key(&self) -> &i64 {
        &self.value
    }
}

#[test]
fn test_inserting_with_no_record() {
    let items: Vec<Entity> = vec![];

    match binary_search(items.as_slice(), 1) {
        Ok(_) => {
            panic!("Should not be here");
        }
        Err(index) => {
            assert_eq!(index, 0);
        }
    }
}

#[test]
fn test_inserting_with_single_record() {
    let items: Vec<Entity> = vec![Entity { value: 2 }];

    match binary_search(items.as_slice(), 1) {
        Ok(_) => {
            panic!("Should not be here");
        }
        Err(index) => {
            assert_eq!(index, 0);
        }
    }
    match binary_search(items.as_slice(), 3) {
        Ok(_) => {
            panic!("Should not be here");
        }
        Err(index) => {
            assert_eq!(index, 1);
        }
    }

    match binary_search(items.as_slice(), 2) {
        Ok(index) => {
            assert_eq!(index, 0);
        }
        Err(_) => {
            panic!("Should not be here")
        }
    }
}

#[test]
fn test_inserting_with_two_records() {
    let items: Vec<Entity> = vec![Entity { value: 2 }, Entity { value: 4 }];

    match binary_search(items.as_slice(), 1) {
        Ok(_) => {
            panic!("Should not be here");
        }
        Err(index) => {
            assert_eq!(index, 0);
        }
    }
    match binary_search(items.as_slice(), 2) {
        Ok(index) => {
            assert_eq!(index, 0);
        }
        Err(_) => {
            panic!("Should not be here")
        }
    }

    match binary_search(items.as_slice(), 3) {
        Ok(_) => {
            panic!("Should not be here");
        }
        Err(index) => {
            assert_eq!(index, 1);
        }
    }

    match binary_search(items.as_slice(), 4) {
        Ok(index) => {
            assert_eq!(index, 1);
        }
        Err(_) => {
            panic!("Should not be here")
        }
    }

    match binary_search(items.as_slice(), 5) {
        Ok(_) => {
            panic!("Should not be here")
        }
        Err(index) => {
            assert_eq!(index, 2);
        }
    }
}

#[test]
fn test_inserting_with_three_records() {
    let items: Vec<Entity> = vec![
        Entity { value: 2 },
        Entity { value: 4 },
        Entity { value: 6 },
    ];

    match binary_search(items.as_slice(), 1) {
        Ok(_) => {
            panic!("Should not be here");
        }
        Err(index) => {
            assert_eq!(index, 0);
        }
    }
    match binary_search(items.as_slice(), 2) {
        Ok(index) => {
            assert_eq!(index, 0);
        }
        Err(_) => {
            panic!("Should not be here")
        }
    }

    match binary_search(items.as_slice(), 3) {
        Ok(_) => {
            panic!("Should not be here");
        }
        Err(index) => {
            assert_eq!(index, 1);
        }
    }

    match binary_search(items.as_slice(), 4) {
        Ok(index) => {
            assert_eq!(index, 1);
        }
        Err(_) => {
            panic!("Should not be here")
        }
    }

    match binary_search(items.as_slice(), 5) {
        Ok(_) => {
            panic!("Should not be here")
        }
        Err(index) => {
            assert_eq!(index, 2);
        }
    }

    match binary_search(items.as_slice(), 6) {
        Ok(index) => {
            assert_eq!(index, 2);
        }
        Err(_) => {
            panic!("Should not be here")
        }
    }

    match binary_search(items.as_slice(), 7) {
        Ok(_) => {
            panic!("Should not be here")
        }
        Err(index) => {
            assert_eq!(index, 3);
        }
    }
}

#[test]
fn test_inserting_with_11_records() {
    let items: Vec<Entity> = vec![
        Entity { value: 2 },
        Entity { value: 4 },
        Entity { value: 6 },
        Entity { value: 8 },
        Entity { value: 10 },
        Entity { value: 12 },
        Entity { value: 14 },
        Entity { value: 16 },
        Entity { value: 18 },
        Entity { value: 20 },
        Entity { value: 22 },
    ];

    let mut key: i64 = 1;

    let mut exact = false;
    let mut vec_index: usize = 0;
    while key <= 23 {
        let search_result = binary_search(items.as_slice(), key);
        if exact {
            match search_result {
                Ok(index) => {
                    assert_eq!(index, vec_index);
                }
                Err(_) => {
                    panic!("Should not be here");
                }
            }
            vec_index += 1;
        } else {
            match search_result {
                Ok(_) => {
                    panic!("Should not be here");
                }
                Err(index) => {
                    assert_eq!(index, vec_index);
                }
            }
        }

        exact = !exact;
        key += 1;
    }
}

#[test]
fn binary_search_finds_every_key_and_every_gap_of_a_long_list() {
    let items: Vec<Entity> = (0..100).map(|i| Entity { value: i * 3 }).collect();
    for key in -2..302 {
        match binary_search(items.as_slice(), key) {
            Ok(index) => assert_eq!(items[index].value, key),
            Err(index) => {
                assert!(key % 3 != 0 || key < 0 || key > 297);
                assert!(index == 0 || items[index - 1].value < key);
                assert!(index == items.len() || items[index].value > key);
            }
        }
    }
}
