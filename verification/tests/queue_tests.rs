use rust_extensions::queue_to_save::inner_as_single::QueueToSaveInnerAsSingle;
use rust_extensions::queue_to_save_or_delete_with_id::inner_or_delete_with_id::QueueToSaveOrDeleteInnerWithId;
use rust_extensions::queue_to_save_or_delete_with_id::upsert_or_delete::{
    PersistObjectId, UpsertOrDelete,
};

#[derive(Debug)]
struct Obj {
    id: u32,
    value: &'static str,
}

impl PersistObjectId<u32> for Obj {
    fn persist_object_id(&self) -> u32 {
        self.id
    }

    fn get_persist_object_id(&self) -> &u32 {
        &self.id
    }
}

fn create_queue() -> QueueToSaveOrDeleteInnerWithId<u32, Obj> {
    QueueToSaveOrDeleteInnerWithId::new("test".into())
}

#[test]
fn delete_replaces_pending_upsert() {
    let mut queue = create_queue();

    queue.enqueue_single(Obj { id: 1, value: "a" });
    queue.enqueue_single(Obj { id: 2, value: "b" });
    queue.enqueue_delete(1);

    let mut result = queue.try_dequeue().ok().unwrap();
    result.sort_by_key(|itm| *itm.get_id());

    assert_eq!(result.len(), 2);

    assert_eq!(*result[0].unwrap_as_delete(), 1);
    assert_eq!(result[1].unwrap_as_upsert().value, "b");
}

#[test]
fn upsert_replaces_pending_delete() {
    let mut queue = create_queue();

    queue.enqueue_delete(1);
    queue.enqueue_single(Obj { id: 1, value: "a" });

    let result = queue.try_dequeue().ok().unwrap();

    assert_eq!(result.len(), 1);
    assert_eq!(result[0].unwrap_as_upsert().value, "a");
}

#[test]
fn delete_of_unknown_id_is_still_delivered() {
    let mut queue = create_queue();

    queue.enqueue_delete(5);

    let result = queue.try_dequeue().ok().unwrap();

    assert_eq!(result.len(), 1);
    assert_eq!(*result[0].unwrap_as_delete(), 5);
}

#[test]
fn empty_queue_returns_awaiter() {
    let mut queue = create_queue();
    assert!(queue.try_dequeue().is_err());
}

#[test]
fn dequeue_is_limited_by_max_chunk_size() {
    let mut queue = create_queue();
    queue.set_max_chunk_size(2);

    queue.enqueue((0..5).map(|id| Obj { id, value: "a" }).collect());
    queue.enqueue_delete(3);

    let chunk = queue.try_dequeue().ok().unwrap();
    assert_eq!(chunk.len(), 2);

    let chunk = queue.try_dequeue().ok().unwrap();
    assert_eq!(chunk.len(), 2);

    let chunk = queue.try_dequeue().ok().unwrap();
    assert_eq!(chunk.len(), 1);

    assert!(queue.try_dequeue().is_err());
}

#[test]
fn split_separates_upserts_from_deletes() {
    let mut queue = create_queue();

    queue.enqueue((0..4).map(|id| Obj { id, value: "a" }).collect());
    queue.enqueue_delete(1);
    queue.enqueue_delete(3);

    let (mut to_upsert, mut to_delete) = UpsertOrDelete::split(queue.try_dequeue().ok().unwrap());

    to_upsert.sort_by_key(|itm| itm.id);
    to_delete.sort();

    assert_eq!(to_upsert.iter().map(|itm| itm.id).collect::<Vec<_>>(), [0, 2]);
    assert_eq!(to_delete, [1, 3]);
}

#[test]
fn new_pending_queue_defaults() {
    let queue = create_queue();
    assert_eq!(queue.get_max_chunk_size(), 50);
    assert_eq!(queue.get_timeout(), std::time::Duration::from_secs(10));
    assert_eq!(queue.get_name(), "test");
    assert_eq!(queue.len(), 0);
}

#[test]
fn the_last_enqueued_state_of_an_id_is_delivered_once() {
    let mut queue = create_queue();
    queue.enqueue_single(Obj { id: 7, value: "first" });
    queue.enqueue_delete_multiple(vec![7, 8]);
    queue.enqueue_single(Obj { id: 7, value: "last" });
    assert_eq!(queue.len(), 2);

    let mut result = queue.try_dequeue().ok().unwrap();
    result.sort_by_key(|itm| *itm.get_id());
    assert_eq!(result.len(), 2);
    assert_eq!(result[0].unwrap_as_upsert().value, "last");
    assert_eq!(*result[1].unwrap_as_delete(), 8);
    assert_eq!(queue.len(), 0);
    assert!(queue.try_dequeue().is_err());
}

#[test]
fn zero_chunk_size_delivers_an_empty_chunk() {
    let mut queue = create_queue();
    queue.set_max_chunk_size(0);
    queue.enqueue_delete(1);
    let chunk = queue.try_dequeue().ok().unwrap();
    assert_eq!(chunk.len(), 0);
    assert_eq!(queue.len(), 1);
}

#[test]
fn single_queue_is_first_in_first_out() {
    let mut queue: QueueToSaveInnerAsSingle<u32> = QueueToSaveInnerAsSingle::new("single".into());
    assert_eq!(queue.get_name(), "single");
    assert_eq!(queue.get_timeout(), std::time::Duration::from_secs(10));
    assert!(queue.try_dequeue().is_err());

    queue.enqueue(vec![1, 2]);
    queue.enqueue_single(3);

    assert_eq!(queue.try_dequeue().ok(), Some(1));
    assert_eq!(queue.try_dequeue().ok(), Some(2));
    assert_eq!(queue.try_dequeue().ok(), Some(3));
    assert!(queue.try_dequeue().is_err());
}
