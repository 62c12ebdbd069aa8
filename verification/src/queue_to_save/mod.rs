pub mod inner_as_single;
