use flexbuffers::{Blob, Builder, Reader};
use selectfb::value::{DecodeError, FbValue};
use selectfb::value_walker::ValueWalker;

fn root(buffer: &[u8]) -> FbValue<'_> {
    FbValue::new(Reader::get_root(buffer).unwrap())
}

fn element<'a>(of: &FbValue<'a>, i: usize) -> FbValue<'a> {
    FbValue::new(of.reader().as_vector().idx(i))
}

/// `[10, "two", [31, 32], {"k": 7}]`
fn mixed_array() -> Vec<u8> {
    let mut builder = Builder::default();
    let mut v = builder.start_vector();
    v.push(10u8);
    v.push("two");
    {
        let mut inner = v.start_vector();
        inner.push(31u8);
        inner.push(32u8);
        inner.end_vector();
    }
    {
        let mut inner = v.start_map();
        inner.push("k", 7u8);
        inner.end_map();
    }
    v.end_vector();
    builder.take_buffer()
}

/// `{"b": 2, "a": "one"}`, which the encoder orders by key.
fn small_object() -> Vec<u8> {
    let mut builder = Builder::default();
    let mut m = builder.start_map();
    m.push("b", 2u8);
    m.push("a", "one");
    m.end_map();
    builder.take_buffer()
}

fn blob() -> Vec<u8> {
    let mut builder = Builder::default();
    builder.build_singleton(Blob(&[1, 2, 3]));
    builder.take_buffer()
}

#[test]
fn indexed_step_takes_the_element_at_the_index() {
    let buffer = mixed_array();
    let a = root(&buffer);
    let mut out = Vec::new();
    assert_eq!(ValueWalker::all_with_num(&[a.clone()], &mut out, 1), Ok(()));
    assert_eq!(out.len(), 1);
    assert_eq!(out[0], element(&a, 1));
    assert_eq!(out[0].reader().as_str(), "two");
}

#[test]
fn indexed_step_at_the_first_and_the_last_index() {
    let buffer = mixed_array();
    let a = root(&buffer);
    let mut out = Vec::new();
    assert_eq!(ValueWalker::all_with_num(&[a.clone()], &mut out, 0), Ok(()));
    assert_eq!(ValueWalker::all_with_num(&[a.clone()], &mut out, 3), Ok(()));
    assert_eq!(out, vec![element(&a, 0), element(&a, 3)]);
    assert_eq!(out[0].reader().as_u64(), 10);
}

#[test]
fn indexed_step_past_the_end_yields_nothing() {
    let buffer = mixed_array();
    let a = root(&buffer);
    let mut out = Vec::new();
    assert_eq!(ValueWalker::all_with_num(&[a.clone()], &mut out, 4), Ok(()));
    assert_eq!(ValueWalker::all_with_num(&[a], &mut out, usize::MAX), Ok(()));
    assert!(out.is_empty());
}

#[test]
fn indexed_step_on_what_is_no_array_yields_nothing() {
    let object = small_object();
    let scalar = flexbuffers::singleton(5u8);
    let text = flexbuffers::singleton("abc");
    let batch = [root(&object), root(&scalar), root(&text)];
    let mut out = Vec::new();
    assert_eq!(ValueWalker::all_with_num(&batch, &mut out, 0), Ok(()));
    assert!(out.is_empty());
}

#[test]
fn indexed_step_does_not_look_below_the_batch() {
    // The array at index 2 has an element at index 1 too; the step takes
    // from the views of the batch and from nothing beneath them.
    let buffer = mixed_array();
    let a = root(&buffer);
    let mut out = Vec::new();
    assert_eq!(ValueWalker::all_with_num(&[a.clone()], &mut out, 1), Ok(()));
    assert_eq!(out, vec![element(&a, 1)]);
}

#[test]
fn steps_keep_what_the_output_held_and_follow_the_batch_order() {
    let first = mixed_array();
    let second = small_object();
    let a = root(&first);
    let o = root(&second);
    let inner = element(&a, 2);
    let mut out = vec![o.clone()];
    assert_eq!(
        ValueWalker::all_with_num(&[inner.clone(), o.clone(), a.clone()], &mut out, 0),
        Ok(())
    );
    assert_eq!(out, vec![o, element(&inner, 0), element(&a, 0)]);
}

#[test]
fn steps_on_an_empty_batch_yield_nothing() {
    let mut out: Vec<FbValue> = Vec::new();
    assert_eq!(ValueWalker::all_with_num(&[], &mut out, 0), Ok(()));
    assert_eq!(ValueWalker::all_with_str(&[], &mut out, "a", true), Ok(()));
    assert_eq!(ValueWalker::all_with_str(&[], &mut out, "a", false), Ok(()));
    assert_eq!(ValueWalker::all(&[], &mut out), Ok(()));
    assert!(out.is_empty());
}

#[test]
fn keyed_projection_yields_the_value_under_the_key() {
    let buffer = small_object();
    let o = root(&buffer);
    let mut out = Vec::new();
    assert_eq!(ValueWalker::all_with_str(&[o.clone()], &mut out, "a", false), Ok(()));
    assert_eq!(out.len(), 1);
    assert_eq!(out[0].reader().as_str(), "one");
    assert_eq!(out[0], FbValue::new(o.reader().as_map().idx("a")));
    assert_ne!(out[0], o);
}

#[test]
fn keyed_filter_yields_the_object_itself() {
    let buffer = small_object();
    let o = root(&buffer);
    let mut out = Vec::new();
    assert_eq!(ValueWalker::all_with_str(&[o.clone()], &mut out, "b", true), Ok(()));
    assert_eq!(out, vec![o]);
}

#[test]
fn keyed_step_without_the_key_yields_nothing() {
    let buffer = small_object();
    let o = root(&buffer);
    let mut out = Vec::new();
    assert_eq!(ValueWalker::all_with_str(&[o.clone()], &mut out, "c", false), Ok(()));
    assert_eq!(ValueWalker::all_with_str(&[o.clone()], &mut out, "c", true), Ok(()));
    assert_eq!(ValueWalker::all_with_str(&[o], &mut out, "", true), Ok(()));
    assert!(out.is_empty());
}

#[test]
fn keyed_step_on_what_is_no_object_yields_nothing() {
    let buffer = mixed_array();
    let text = flexbuffers::singleton("k");
    let batch = [root(&buffer), root(&text)];
    let mut out = Vec::new();
    assert_eq!(ValueWalker::all_with_str(&batch, &mut out, "k", false), Ok(()));
    assert_eq!(ValueWalker::all_with_str(&batch, &mut out, "k", true), Ok(()));
    assert!(out.is_empty());
}

#[test]
fn flattening_an_object_yields_its_values_in_key_order() {
    let buffer = small_object();
    let o = root(&buffer);
    let mut out = Vec::new();
    assert_eq!(ValueWalker::all(&[o], &mut out), Ok(()));
    assert_eq!(out.len(), 2);
    assert_eq!(out[0].reader().as_str(), "one");
    assert_eq!(out[1].reader().as_u64(), 2);
}

#[test]
fn flattening_an_array_yields_its_elements_in_order() {
    let mut builder = Builder::default();
    let mut v = builder.start_vector();
    v.push("e1");
    v.push("e2");
    v.push("e3");
    v.end_vector();
    let buffer = builder.take_buffer();
    let a = root(&buffer);
    let mut out = Vec::new();
    assert_eq!(ValueWalker::all(&[a.clone()], &mut out), Ok(()));
    assert_eq!(out, vec![element(&a, 0), element(&a, 1), element(&a, 2)]);
    let texts: Vec<&str> = out.iter().map(|v| v.reader().as_str()).collect();
    assert_eq!(texts, vec!["e1", "e2", "e3"]);
}

#[test]
fn flattening_goes_one_level_down() {
    let buffer = mixed_array();
    let a = root(&buffer);
    let mut out = Vec::new();
    assert_eq!(ValueWalker::all(&[a.clone()], &mut out), Ok(()));
    assert_eq!(out.len(), 4);
    assert_eq!(out[2], element(&a, 2));
    assert!(out[2].is_array());
}

#[test]
fn flattening_a_scalar_yields_nothing() {
    let number = flexbuffers::singleton(5u8);
    let text = flexbuffers::singleton("abc");
    let null = flexbuffers::singleton(());
    let truth = flexbuffers::singleton(true);
    let batch = [root(&number), root(&text), root(&null), root(&truth)];
    let mut out = Vec::new();
    assert_eq!(ValueWalker::all(&batch, &mut out), Ok(()));
    assert!(out.is_empty());
}

#[test]
fn a_step_fails_on_a_tag_it_does_not_know() {
    let buffer = blob();
    let b = root(&buffer);
    let mut out = Vec::new();
    let failure = Err(DecodeError::UnsupportedTag(25));
    assert_eq!(ValueWalker::all_with_num(&[b.clone()], &mut out, 0), failure);
    assert_eq!(ValueWalker::all_with_str(&[b.clone()], &mut out, "a", false), failure);
    assert_eq!(ValueWalker::all_with_str(&[b.clone()], &mut out, "a", true), failure);
    assert_eq!(ValueWalker::all(&[b], &mut out), failure);
    assert!(out.is_empty());
}

#[test]
fn a_failing_step_keeps_what_came_before_the_failure() {
    let first = mixed_array();
    let second = blob();
    let a = root(&first);
    let b = root(&second);
    let mut out = Vec::new();
    assert_eq!(
        ValueWalker::all(&[element(&a, 2), b, a.clone()], &mut out),
        Err(DecodeError::UnsupportedTag(25))
    );
    assert_eq!(out.len(), 2);
    assert_eq!(out[0].reader().as_u64(), 31);
    assert_eq!(out[1].reader().as_u64(), 32);
}
