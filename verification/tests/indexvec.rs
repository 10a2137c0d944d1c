use modal_editor::indexvec::{IndexVec, VecIndex};

#[derive(Clone, Copy, Default, Debug)]
struct MyIndex(usize);

impl VecIndex for MyIndex {
    fn get(self) -> usize {
        self.0
    }

    fn new(index: usize) -> Self {
        Self(index)
    }
}

#[test]
fn index_vec() {
    let mut vec: IndexVec<String, MyIndex> = Default::default();
    let id: MyIndex = vec.push(String::from("hello"));
    assert_eq!(vec[id], String::from("hello"));
}

#[test]
fn handles_count_up_from_zero() {
    let mut vec: IndexVec<u32, MyIndex> = IndexVec::new();
    assert_eq!(vec.len(), 0);
    let first = vec.push(7);
    let second = vec.push(9);
    assert_eq!(first.get(), 0);
    assert_eq!(second.get(), 1);
    assert_eq!(vec.len(), 2);
    assert_eq!(vec[first], 7);
    assert_eq!(vec[second], 9);
}

#[test]
fn set_and_get_mut_change_one_element() {
    let mut vec: IndexVec<u32, MyIndex> = IndexVec::new();
    let first = vec.push(1);
    let second = vec.push(2);
    vec.set(first, 10);
    *vec.get_mut(second) += 5;
    assert_eq!(vec[first], 10);
    assert_eq!(vec[second], 7);
    let copy = vec.clone();
    assert_eq!(copy.underlying, vec![10, 7]);
}
