use rust_extensions::as_str::AsStr;
use rust_extensions::background_executor::background_job::RepeatIteration;
use rust_extensions::binary_payload_builder::BinaryPayloadBuilder;
use rust_extensions::events_loop::events_loop_message::EventsLoopMessage;
use rust_extensions::events_loop::repeat_iteration::RepeatIteration as EventsRepeatIteration;
use rust_extensions::min_key_value::MinKeyValue;
use rust_extensions::queue_to_save_or_delete_with_id::upsert_or_delete::{
    PersistObjectId, UpsertOrDelete,
};
use rust_extensions::wrapped_type::WrappedType;

struct Item {
    id: String,
    payload: u32,
}

impl PersistObjectId<String> for Item {
    fn persist_object_id(&self) -> String {
        self.id.clone()
    }

    fn get_persist_object_id(&self) -> &String {
        &self.id
    }
}

#[test]
fn min_key_value_keeps_the_first_least_key() {
    let mut min: MinKeyValue<i64, &str> = MinKeyValue::new();
    assert!(min.get_value().is_none());
    min.update(5, "five");
    min.update(7, "seven");
    assert_eq!(min.get_value(), Some((5, "five")));
    min.update(5, "other five");
    assert_eq!(min.get_value(), Some((5, "five")));
    min.update(-1, "minus one");
    assert_eq!(min.get_value(), Some((-1, "minus one")));
}

#[test]
fn upsert_or_delete_splits_into_the_two_bulk_operations() {
    let items = vec![
        UpsertOrDelete::Upsert(Item { id: "a".to_string(), payload: 1 }),
        UpsertOrDelete::Delete("b".to_string()),
        UpsertOrDelete::Upsert(Item { id: "c".to_string(), payload: 3 }),
        UpsertOrDelete::Delete("d".to_string()),
    ];
    assert!(items[0].is_upsert() && !items[0].is_delete());
    assert!(items[1].is_delete() && !items[1].is_upsert());
    assert_eq!(items[0].get_id(), "a");
    assert_eq!(items[1].get_id(), "b");
    assert_eq!(items[2].unwrap_as_upsert().payload, 3);
    assert_eq!(items[3].unwrap_as_delete(), "d");
    assert!(items[0].as_delete().is_none());
    assert_eq!(items[1].as_delete().unwrap(), "b");
    assert_eq!(items[2].as_upsert().unwrap().id, "c");

    let (to_upsert, to_delete) = UpsertOrDelete::split(items);
    let upsert_ids: Vec<&str> = to_upsert.iter().map(|i| i.id.as_str()).collect();
    assert_eq!(upsert_ids, vec!["a", "c"]);
    assert_eq!(to_delete, vec!["b".to_string(), "d".to_string()]);
}

#[test]
fn payload_builder_writes_little_endian_into_a_slice() {
    let mut buffer = [0u8; 22];
    {
        let mut builder = BinaryPayloadBuilder::new_as_slice(&mut buffer);
        builder.write_u8(0xAB);
        builder.write_i8(-1);
        builder.write_u16(0x0102);
        builder.write_i16(-2);
        builder.write_u32(0x0304_0506);
        builder.write_i32(-3);
        builder.write_u64(0x0708);
    }
    assert_eq!(
        buffer,
        [
            0xAB, 0xFF, 0x02, 0x01, 0xFE, 0xFF, 0x06, 0x05, 0x04, 0x03, 0xFD, 0xFF, 0xFF, 0xFF, 0x08,
            0x07, 0, 0, 0, 0, 0, 0
        ]
    );
}

#[test]
fn payload_builder_writes_big_endian_onto_a_vector() {
    let mut builder = BinaryPayloadBuilder::new_as_vec();
    builder.write_u16(0x0102);
    builder.write_u32(0x0304_0506);
    builder.write_i64(-2);
    builder.write_u8(9);
    match builder {
        BinaryPayloadBuilder::AsVec(data) => assert_eq!(
            data,
            vec![1, 2, 3, 4, 5, 6, 0xFF, 0xFF, 0xFF, 0xFF, 0xFF, 0xFF, 0xFF, 0xFE, 9]
        ),
        BinaryPayloadBuilder::AsSlice(..) => panic!("a vector was asked for"),
    }
}

#[test]
fn repeat_iterations_say_whether_to_repeat() {
    assert!(RepeatIteration::Yes.is_yes());
    assert!(!RepeatIteration::No.is_yes());
    let yes: EventsRepeatIteration<u32> = EventsRepeatIteration::Yes(5);
    assert!(yes.is_yes());
    assert_eq!(yes.into_model(), Some(5));
    let no: EventsRepeatIteration<u32> = EventsRepeatIteration::No;
    assert!(!no.is_yes());
    assert_eq!(no.into_model(), None);
}

#[test]
fn events_loop_messages() {
    let message: EventsLoopMessage<u32> = EventsLoopMessage::NewMessage(3);
    assert!(!message.is_shutdown());
    assert_eq!(message.unwrap_message(), 3);
    let shutdown: EventsLoopMessage<u32> = EventsLoopMessage::Shutdown;
    assert!(shutdown.is_shutdown());
}

#[test]
fn wrapped_type_tells_strings_apart() {
    let string = WrappedType::from_str("String");
    assert!(string.is_string());
    assert_eq!(string.as_str(), "string");
    let other = WrappedType::from_str("u64");
    assert!(!other.is_string());
    assert_eq!(other.as_str(), "u64");
}

#[test]
fn as_str_lends_the_text() {
    let owned = "abc".to_string();
    assert_eq!(AsStr::as_str(&owned), "abc");
    let borrowed: &str = "xyz";
    assert_eq!(AsStr::as_str(&borrowed), "xyz");
    let reference: &String = &owned;
    assert_eq!(AsStr::as_str(&reference), "abc");
}
