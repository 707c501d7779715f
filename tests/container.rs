use staticvec::{CapacityError, PushCapacityError, StaticVec};
use std::cell::Cell;

fn contents<T: Clone, const N: usize>(v: &StaticVec<T, N>) -> Vec<T> {
    let mut out = Vec::new();
    let mut it = v.iter();
    while let Some(x) = it.next() {
        out.push(x.clone());
    }
    out
}

fn from_items<T, const N: usize>(items: Vec<T>) -> StaticVec<T, N> {
    let mut v = StaticVec::new();
    for x in items {
        v.push(x);
    }
    v
}

#[derive(Debug, Eq, PartialEq)]
struct Struct {
    s: &'static str,
}

#[derive(Debug, Eq, PartialEq, Clone, Copy)]
struct Zst;

#[test]
fn append() {
    let mut a: StaticVec<Box<Struct>, 3> = from_items(vec![
        Box::new(Struct { s: "A" }),
        Box::new(Struct { s: "B" }),
        Box::new(Struct { s: "C" }),
    ]);
    let mut b: StaticVec<Box<Struct>, 4> = from_items(vec![
        Box::new(Struct { s: "D" }),
        Box::new(Struct { s: "E" }),
        Box::new(Struct { s: "F" }),
        Box::new(Struct { s: "G" }),
    ]);
    let mut c = StaticVec::<Box<Struct>, 6>::new();
    c.append(&mut a);
    c.append(&mut b);
    assert_eq!(a.len(), 0);
    assert_eq!(b.len(), 1);
    assert_eq!(b.index(0).s, "G");
    let names: Vec<&str> = {
        let mut out = Vec::new();
        let mut it = c.iter();
        while let Some(x) = it.next() {
            out.push(x.s);
        }
        out
    };
    assert_eq!(names, vec!["A", "B", "C", "D", "E", "F"]);
    let mut d: StaticVec<Box<i32>, 2> = from_items(vec![Box::new(12), Box::new(24)]);
    let mut e: StaticVec<Box<i32>, 3> = from_items(vec![Box::new(1), Box::new(2), Box::new(3)]);
    d.pop().unwrap();
    d.append(&mut e);
    assert_eq!(contents(&e), vec![Box::new(2), Box::new(3)]);
    assert_eq!(contents(&d), vec![Box::new(12), Box::new(1)]);
    let mut f = StaticVec::<Box<Struct>, 0>::new();
    let mut g: StaticVec<Box<Struct>, 2> =
        from_items(vec![Box::new(Struct { s: "A" }), Box::new(Struct { s: "B" })]);
    f.append(&mut g);
    assert_eq!(f.len(), 0);
    assert_eq!(g.len(), 2);
    let mut h = StaticVec::<Box<Struct>, 1>::new();
    let mut i: StaticVec<Box<Struct>, 2> =
        from_items(vec![Box::new(Struct { s: "A" }), Box::new(Struct { s: "B" })]);
    h.append(&mut i);
    assert_eq!(h.index(0).s, "A");
    assert_eq!(h.len(), 1);
    assert_eq!(i.index(0).s, "B");
    assert_eq!(i.len(), 1);
}

#[test]
fn bounds_to_string() {
    let mut v = StaticVec::<i32, 4>::new_from_slice(&[1, 2, 3, 4]);
    let it = v.iter();
    assert_eq!(
        "Current value of element at `start`: 1\nCurrent value of element at `end`: 4",
        it.bounds_to_string()
    );
    let itm = v.iter_mut();
    assert_eq!(
        "Current value of element at `start`: 1\nCurrent value of element at `end`: 4",
        itm.bounds_to_string()
    );
    let itv = v.into_iter();
    assert_eq!(
        "Current value of element at `start`: 1\nCurrent value of element at `end`: 4",
        itv.bounds_to_string()
    );
    let mut v2 = StaticVec::<Box<i32>, 0>::new();
    let it2 = v2.iter();
    assert_eq!("Empty iterator!", it2.bounds_to_string());
    let itm2 = v2.iter_mut();
    assert_eq!("Empty iterator!", itm2.bounds_to_string());
    let itv2 = v2.into_iter();
    assert_eq!("Empty iterator!", itv2.bounds_to_string());
    let v3: StaticVec<Zst, 4> = from_items(vec![Zst, Zst, Zst, Zst]);
    let mut it3 = v3.iter();
    it3.next();
    it3.next_back();
    assert_eq!(
        "Current value of element at `start`: Zst\nCurrent value of element at `end`: Zst",
        it3.bounds_to_string()
    );
    it3.next();
    it3.next_back();
    assert_eq!("Empty iterator!", it3.bounds_to_string());
}

#[test]
fn capacity() {
    let vec = StaticVec::<i32, 10>::new();
    assert_eq!(vec.capacity(), 10);
}

#[test]
fn clear() {
    let mut v = StaticVec::<i32, 3>::new_from_slice(&[1, 2, 3]);
    v.clear();
    assert!(v.is_empty());
}

#[test]
fn clone() {
    let v = StaticVec::<i32, 8>::new_from_slice(&[1, 2, 3, 4, 5, 6, 7, 8]);
    let vv = v.clone();
    assert_eq!(contents(&v), contents(&vv));
}

#[test]
fn drain() {
    let mut v = StaticVec::<i32, 3>::new_from_slice(&[1, 2, 3]);
    let u = v.drain(1..3);
    assert_eq!(contents(&v), vec![1]);
    assert_eq!(contents(&u), vec![2, 3]);
    let n = v.len();
    v.drain(0..n);
    assert_eq!(contents(&v), Vec::<i32>::new());
    let mut v = StaticVec::<u8, 8>::new_from_slice(&[0; 8]);
    v.pop();
    v.drain(0..7);
    assert_eq!(contents(&v), Vec::<u8>::new());
    v.extend_from_slice(&[0, 1, 2, 3, 4, 5, 6, 7, 8, 9]);
    v.drain(1..4);
    assert_eq!(contents(&v), vec![0, 4, 5, 6, 7]);
    let u = v.drain(1..4).reversed();
    assert_eq!(contents(&u), vec![6, 5, 4]);
    assert_eq!(contents(&v), vec![0, 7]);
    let n = v.len();
    v.drain(0..n);
    assert_eq!(contents(&v), Vec::<u8>::new());
    let mut v2 = StaticVec::<u8, 8>::new_from_slice(&[0; 8]);
    v2.drain(0..8);
    assert_eq!(contents(&v2), Vec::<u8>::new());
    v2.extend_from_slice(&[0, 1, 2, 3, 4, 5, 6, 7, 8, 9]);
    v2.drain(1..5);
    assert_eq!(contents(&v2), vec![0, 5, 6, 7]);
    let u = v2.drain(1..3).reversed();
    assert_eq!(contents(&u), vec![6, 5]);
    assert_eq!(contents(&v2), vec![0, 7]);
    let mut v3: StaticVec<Box<i32>, 8> = from_items((0..8).map(|_| Box::new(12)).collect());
    v3.pop();
    v3.drain(0..7);
    assert_eq!(v3.len(), 0);
    let mut v4: StaticVec<Box<i32>, 8> = from_items((0..8).map(|_| Box::new(12)).collect());
    v4.drain(0..4);
    assert_eq!(contents(&v4), vec![Box::new(12); 4]);
}

#[test]
#[should_panic]
fn drain_panic() {
    let mut v3 = StaticVec::<i32, 0>::new();
    v3.drain(0..1);
}

#[test]
fn drain_iter() {
    let mut v = StaticVec::<i32, 3>::new_from_slice(&[1, 2, 3]);
    let mut d = v.drain_iter(1..3);
    let mut u = StaticVec::<i32, 6>::new();
    while let Some(x) = d.next() {
        u.push(x);
    }
    assert_eq!(contents(&v), vec![1]);
    assert_eq!(contents(&u), vec![2, 3]);
    let n = v.len();
    v.drain_iter(0..n);
    assert_eq!(contents(&v), Vec::<i32>::new());
    let mut v = StaticVec::<u8, 8>::new_from_slice(&[0; 8]);
    v.pop();
    v.drain_iter(0..7);
    assert_eq!(contents(&v), Vec::<u8>::new());
    v.extend_from_slice(&[0, 1, 2, 3, 4, 5, 6, 7, 8, 9]);
    v.drain_iter(1..4);
    assert_eq!(contents(&v), vec![0, 4, 5, 6, 7]);
    let mut d = v.drain_iter(1..4);
    let mut u = StaticVec::<u8, 3>::new();
    while let Some(x) = d.next_back() {
        u.push(x);
    }
    assert_eq!(contents(&u), vec![6, 5, 4]);
    assert_eq!(contents(&v), vec![0, 7]);
    let mut v5: StaticVec<Zst, 16> = from_items(vec![Zst; 16]);
    assert_eq!(v5.drain_iter(6..12).len(), 6);
    assert_eq!(v5.len(), 10);
    let mut v6: StaticVec<Box<i32>, 16> = from_items((1..17).map(Box::new).collect());
    assert_eq!(v6.drain_iter(6..12).len(), 6);
    assert_eq!(v6.len(), 10);
}

#[test]
#[should_panic]
fn drain_iter_panic() {
    let mut v3 = StaticVec::<i32, 0>::new();
    v3.drain_iter(0..1);
}

#[test]
fn extend_from_slice() {
    let mut vec = StaticVec::<i32, 4>::new_from_slice(&[1]);
    vec.extend_from_slice(&[2, 3, 4]);
    assert_eq!(contents(&vec), vec![1, 2, 3, 4]);
    let mut vec2 = StaticVec::<i32, 0>::new();
    vec2.extend_from_slice(&[2, 3, 4]);
    assert_eq!(contents(&vec2), Vec::<i32>::new());
}

#[test]
fn filled_with() {
    let i = Cell::new(0);
    let v = StaticVec::<i32, 64>::filled_with(|| {
        i.set(i.get() + 1);
        i.get()
    });
    assert_eq!(v.len(), 64);
    assert_eq!(*v.index(0), 1);
    assert_eq!(*v.index(1), 2);
    assert_eq!(*v.index(2), 3);
    assert_eq!(*v.index(3), 4);
    let v2 = StaticVec::<i32, 0>::filled_with(|| 0);
    assert_eq!(v2.len(), 0);
    assert_eq!(v2.capacity(), 0);
    assert_eq!(v2.remaining_capacity(), 0);
}

#[test]
fn index() {
    let vec = StaticVec::<i32, 5>::new_from_slice(&[0, 1, 2, 3, 4]);
    assert_eq!(*vec.index(3), 3);
    assert_eq!(*vec.index(0), 0);
    assert_eq!(*vec.index(4), 4);
}

#[test]
fn insert() {
    let mut vec = StaticVec::<i32, 5>::new_from_slice(&[1, 2, 3]);
    vec.insert(1, 4);
    assert_eq!(contents(&vec), vec![1, 4, 2, 3]);
    vec.insert(4, 5);
    assert_eq!(contents(&vec), vec![1, 4, 2, 3, 5]);
}

#[test]
#[should_panic]
fn insert_already_full() {
    let mut vec = StaticVec::<i32, 5>::new_from_slice(&[1, 2, 3, 4, 5]);
    vec.insert(1, 4);
}

#[test]
#[should_panic]
fn insert_index_too_high() {
    let mut vec = StaticVec::<i32, 8>::new_from_slice(&[1, 2, 3, 4, 5]);
    vec.insert(19, 4);
}

#[test]
#[should_panic]
fn insert_no_capacity() {
    let mut vec = StaticVec::<i32, 0>::new();
    vec.insert(0, 4);
}

#[test]
fn is_empty() {
    let mut v = StaticVec::<i32, 1>::new();
    assert!(v.is_empty());
    v.push(1);
    assert!(!v.is_empty());
}

#[test]
fn is_not_empty() {
    let mut v = StaticVec::<i32, 1>::new();
    assert!(v.is_empty());
    v.push(1);
    assert!(v.is_not_empty());
}

#[test]
fn is_full() {
    let mut v = StaticVec::<i32, 1>::new();
    v.push(1);
    assert!(v.is_full());
}

#[test]
fn is_not_full() {
    let v = StaticVec::<i32, 1>::new();
    assert!(v.is_not_full());
}

#[test]
fn iter() {
    let v: StaticVec<Box<i32>, 5> = from_items((1..6).map(Box::new).collect());
    let mut i = v.iter();
    assert_eq!(*i.next().unwrap(), Box::new(1));
    assert_eq!(*i.next_back().unwrap(), Box::new(5));
    assert_eq!(i.len(), 3);
    assert_eq!(*i.next().unwrap(), Box::new(2));
    assert_eq!(*i.next_back().unwrap(), Box::new(4));
    assert_eq!(i.len(), 1);
    assert_eq!(*i.next().unwrap(), Box::new(3));
    assert_eq!(i.len(), 0);
    let v2: StaticVec<Zst, 4> = from_items(vec![Zst; 4]);
    let mut it2 = v2.iter();
    assert_eq!(it2.len(), 4);
    assert_eq!(it2.is_empty(), false);
    it2.next();
    assert_eq!(it2.len(), 3);
    assert_eq!(it2.is_empty(), false);
    it2.next_back();
    assert_eq!(it2.len(), 2);
    assert_eq!(it2.is_empty(), false);
    it2.next();
    assert_eq!(it2.len(), 1);
    assert_eq!(it2.is_empty(), false);
    it2.next_back();
    assert_eq!(it2.len(), 0);
    assert_eq!(it2.is_empty(), true);
    assert_eq!(it2.size_hint(), (0, Some(0)));
}

#[test]
fn iter_nth() {
    let v3: StaticVec<Zst, 4> = from_items(vec![Zst; 4]);
    let mut i3 = v3.iter();
    assert_eq!(i3.nth(2).unwrap(), &Zst);
    assert_eq!(i3.len(), 1);
    assert_eq!(i3.nth(0).unwrap(), &Zst);
    assert_eq!(i3.nth(0), None);
    assert_eq!(i3.nth(0), None);
    let v4 = StaticVec::<i32, 4>::new_from_slice(&[1, 2, 3, 4]);
    let mut i4 = v4.iter();
    assert_eq!(i4.nth(2).unwrap(), &3);
    assert_eq!(i4.len(), 1);
    assert_eq!(i4.nth(0).unwrap(), &4);
    assert_eq!(i4.nth(0), None);
    assert_eq!(i4.nth(0), None);
}

#[test]
fn iter_nth_back() {
    let v4 = StaticVec::<i32, 4>::new_from_slice(&[1, 2, 3, 4]);
    let mut i4 = v4.iter();
    assert_eq!(i4.nth_back(2).unwrap(), &2);
    assert_eq!(i4.len(), 1);
    assert_eq!(i4.nth_back(0).unwrap(), &1);
    assert_eq!(i4.nth_back(0), None);
    assert_eq!(i4.nth_back(0), None);
    let mut i5 = v4.iter();
    assert_eq!(i5.nth_back(7), None);
    assert_eq!(i5.next(), None);
}

#[test]
fn iter_mut() {
    let mut v: StaticVec<Box<i32>, 5> = from_items((1..6).map(Box::new).collect());
    {
        let mut i = v.iter_mut();
        assert_eq!(i.len(), 5);
        while let Some(x) = i.next() {
            **x += 10;
        }
        assert!(i.is_empty());
    }
    assert_eq!(contents(&v), (11..16).map(Box::new).collect::<Vec<_>>());
}

#[test]
fn into_iter() {
    let v: StaticVec<Box<i32>, 5> = from_items((1..6).map(Box::new).collect());
    let mut i = v.into_iter();
    assert_eq!(i.next().unwrap(), Box::new(1));
    assert_eq!(i.next_back().unwrap(), Box::new(5));
    assert_eq!(i.len(), 3);
    assert_eq!(i.next().unwrap(), Box::new(2));
    assert_eq!(i.next_back().unwrap(), Box::new(4));
    assert_eq!(i.size_hint(), (1, Some(1)));
    assert_eq!(i.next().unwrap(), Box::new(3));
    assert!(i.is_empty());
    assert_eq!(i.next(), None);
    let v2: StaticVec<String, 3> =
        from_items(vec![String::from("AAA"), String::from("BBB"), String::from("CCC")]);
    let mut i2 = v2.into_iter();
    assert_eq!(i2.next().unwrap(), "AAA");
    // the two strings left behind are dropped with the iterator
}

#[test]
fn len() {
    let a = StaticVec::<i32, 3>::new_from_slice(&[1, 2, 3]);
    assert_eq!(a.len(), 3);
}

#[test]
fn new() {
    let v = StaticVec::<i32, 1>::new();
    assert_eq!(v.capacity(), 1);
}

#[test]
fn new_from_slice() {
    let vec = StaticVec::<i32, 3>::new_from_slice(&[1, 2, 3]);
    assert_eq!(contents(&vec), vec![1, 2, 3]);
    let vec2 = StaticVec::<i32, 3>::new_from_slice(&[1, 2, 3, 4, 5, 6]);
    assert_eq!(contents(&vec2), vec![1, 2, 3]);
    let vec3 = StaticVec::<i32, 27>::new_from_slice(&[]);
    assert_eq!(contents(&vec3), Vec::<i32>::new());
    let vec4 = StaticVec::<i32, 0>::new_from_slice(&[1, 2, 3]);
    assert_eq!(contents(&vec4), Vec::<i32>::new());
}

#[test]
fn pop() {
    let mut vec: StaticVec<Box<i32>, 3> = from_items(vec![Box::new(1), Box::new(2), Box::new(3)]);
    assert_eq!(vec.pop(), Some(Box::new(3)));
    assert_eq!(contents(&vec), vec![Box::new(1), Box::new(2)]);
    assert_eq!(vec.pop(), Some(Box::new(2)));
    assert_eq!(contents(&vec), vec![Box::new(1)]);
    assert_eq!(vec.pop(), Some(Box::new(1)));
    assert_eq!(contents(&vec), Vec::<Box<i32>>::new());
    assert_eq!(vec.pop(), None);
}

#[test]
fn push() {
    let mut vec = StaticVec::<i32, 4>::new_from_slice(&[1, 2, 3]);
    vec.push(3);
    assert_eq!(contents(&vec), vec![1, 2, 3, 3]);
}

#[test]
#[should_panic]
fn push_panic() {
    let mut v: StaticVec<Box<i32>, 3> = from_items(vec![Box::new(1), Box::new(2), Box::new(3)]);
    v.push(Box::new(12));
}

#[test]
fn remaining_capacity() {
    let mut v = StaticVec::<i32, 3>::new();
    v.push(12);
    assert_eq!(v.remaining_capacity(), 2);
}

#[test]
fn remove() {
    let mut v = StaticVec::<i32, 3>::new_from_slice(&[1, 2, 3]);
    assert_eq!(v.remove(1), 2);
    assert_eq!(contents(&v), vec![1, 3]);
}

#[test]
#[should_panic]
fn remove_panic() {
    let mut v = StaticVec::<i32, 3>::new_from_slice(&[1, 2, 3]);
    v.remove(128);
}

#[test]
fn remove_item() {
    let mut vec = StaticVec::<i32, 4>::new_from_slice(&[1, 2, 3, 1]);
    vec.remove_item(&1);
    assert_eq!(contents(&vec), vec![2, 3, 1]);
}

#[test]
fn reversed() {
    let v = StaticVec::<i32, 3>::new_from_slice(&[1, 2, 3]).reversed();
    assert_eq!(contents(&v), vec![3, 2, 1]);
    let mut x = StaticVec::<f64, 24>::new();
    let mut y = StaticVec::<f64, 12>::new();
    for _ in 0..12 {
        y.push(12.0);
    }
    x.append(&mut y);
    assert_eq!(x.reversed().len(), 12);
    assert_eq!(contents(&x.reversed()), vec![12.0; 12]);
}

#[test]
fn sorted() {
    let v = StaticVec::<i32, 6>::new_from_slice(&[1, 2, 3, 6, 5, 4]);
    assert_eq!(contents(&v.sorted()), vec![1, 2, 3, 4, 5, 6]);
    let v2 = StaticVec::<i32, 128>::new();
    assert_eq!(contents(&v2.sorted()), Vec::<i32>::new());
    assert_eq!(contents(&StaticVec::<i32, 2>::new_from_slice(&[2, 1]).sorted()), vec![1, 2]);
}

#[test]
fn sorted_unstable() {
    let v = StaticVec::<i32, 6>::new_from_slice(&[1, 2, 3, 6, 5, 4]);
    assert_eq!(contents(&v.sorted_unstable()), vec![1, 2, 3, 4, 5, 6]);
    let v2 = StaticVec::<i32, 128>::new();
    assert_eq!(contents(&v2.sorted_unstable()), Vec::<i32>::new());
    assert_eq!(
        contents(&StaticVec::<i32, 2>::new_from_slice(&[2, 1]).sorted_unstable()),
        vec![1, 2]
    );
}

#[test]
fn splice() {
    let mut v = StaticVec::<i32, 5>::new_from_slice(&[1, 2, 3]);
    let new = StaticVec::<i32, 3>::new_from_slice(&[10, 11, 12]);
    let removed = v.splice(0..1, new);
    assert_eq!(contents(&v), vec![10, 11, 12, 2, 3]);
    assert_eq!(contents(&removed), vec![1]);
}

#[test]
fn splice_unbounded() {
    let mut v = StaticVec::<i32, 5>::new_from_slice(&[1, 2, 3, 4, 5]);
    let n = v.len();
    let removed = v.splice(0..n, StaticVec::<i32, 0>::new());
    assert_eq!(contents(&v), Vec::<i32>::new());
    assert_eq!(contents(&removed), vec![1, 2, 3, 4, 5]);
}

#[test]
fn truncate() {
    let mut vec = StaticVec::<i32, 5>::new_from_slice(&[1, 2, 3, 4, 5]);
    vec.truncate(2);
    assert_eq!(contents(&vec), vec![1, 2]);
    let mut vec2 = StaticVec::<i32, 5>::new_from_slice(&[1, 2, 3, 4, 5]);
    vec2.truncate(2);
    assert_eq!(contents(&vec2), vec![1, 2]);
    let mut vec3 = StaticVec::<i32, 3>::new_from_slice(&[1, 2, 3]);
    vec3.truncate(0);
    assert_eq!(contents(&vec3), Vec::<i32>::new());
    let mut vec4 = StaticVec::<i32, 4>::new_from_slice(&[1, 2, 3, 4]);
    vec4.truncate(97);
    assert_eq!(vec4.len(), 4);
    let mut vec5: StaticVec<Box<i32>, 5> = from_items((1..6).map(Box::new).collect());
    vec5.truncate(2);
    assert_eq!(contents(&vec5), vec![Box::new(1), Box::new(2)]);
}

#[test]
fn try_insert() {
    let mut vec = StaticVec::<i32, 5>::new_from_slice(&[1, 2, 3, 4, 5]);
    assert_eq!(vec.try_insert(2, 0), Err(PushCapacityError { value: 0 }));
    let mut vec2 = StaticVec::<i32, 4>::new_from_slice(&[1, 2, 3]);
    assert_eq!(vec2.try_insert(2, 3), Ok(()));
    assert_eq!(contents(&vec2), vec![1, 2, 3, 3]);
}

#[test]
fn try_push() {
    let mut vec = StaticVec::<i32, 5>::new_from_slice(&[1, 2, 3, 4, 5]);
    let err = vec.try_push(2).unwrap_err();
    assert_eq!(err.into_value(), 2);
    let mut vec2 = StaticVec::<i32, 4>::new_from_slice(&[1, 2, 3]);
    assert_eq!(vec2.try_push(3), Ok(()));
    assert_eq!(contents(&vec2), vec![1, 2, 3, 3]);
}

#[test]
fn from_vec() {
    let v = vec![
        Box::new(Struct { s: "AAA" }),
        Box::new(Struct { s: "BBB" }),
        Box::new(Struct { s: "CCC" }),
    ];
    let vv = StaticVec::<Box<Struct>, 2>::from_vec(v);
    assert_eq!(vv.capacity(), 2);
    assert_eq!(vv.len(), 2);
    assert_eq!(
        contents_of_structs(&vv),
        vec![Box::new(Struct { s: "AAA" }), Box::new(Struct { s: "BBB" })]
    );
    let x = Vec::<Box<Struct>>::new();
    let y = StaticVec::<Box<Struct>, 1>::from_vec(x);
    assert_eq!(y.len(), 0);
}

fn contents_of_structs<const N: usize>(v: &StaticVec<Box<Struct>, N>) -> Vec<Box<Struct>> {
    let mut out = Vec::new();
    let mut it = v.iter();
    while let Some(x) = it.next() {
        out.push(Box::new(Struct { s: x.s }));
    }
    out
}

#[test]
fn into_vec() {
    let v: StaticVec<Box<Struct>, 3> = from_items(vec![
        Box::new(Struct { s: "AAA" }),
        Box::new(Struct { s: "BBB" }),
        Box::new(Struct { s: "CCC" }),
    ]);
    let vv = v.into_vec();
    assert!(vv.capacity() >= 3);
    assert_eq!(vv.len(), 3);
    assert_eq!(vv[2].s, "CCC");
}

#[test]
fn iter_mut_nth_back() {
    let mut v = StaticVec::<i32, 4>::new_from_slice(&[1, 2, 3, 4]);
    {
        let mut it = v.iter_mut();
        *it.next_back().unwrap() = 40;
        *it.next().unwrap() = 10;
        assert_eq!(it.len(), 2);
        assert!(it.next_back().is_some());
        assert!(it.next_back().is_some());
        assert!(it.next_back().is_none());
    }
    assert_eq!(contents(&v), vec![10, 2, 3, 40]);
}

#[test]
fn into_iter_nth() {
    let v3: StaticVec<Zst, 4> = from_items(vec![Zst; 4]);
    let mut i3 = v3.into_iter();
    assert_eq!(i3.nth(2).unwrap(), Zst);
    assert_eq!(i3.len(), 1);
    assert_eq!(i3.nth(0).unwrap(), Zst);
    assert_eq!(i3.nth(0), None);
    assert_eq!(i3.nth(0), None);
    let v4 = StaticVec::<i32, 4>::new_from_slice(&[1, 2, 3, 4]);
    let mut i4 = v4.into_iter();
    assert_eq!(i4.nth(2).unwrap(), 3);
    assert_eq!(i4.len(), 1);
    assert_eq!(i4.nth(0).unwrap(), 4);
    assert_eq!(i4.nth(0), None);
    assert_eq!(i4.nth(0), None);
    let xs5: StaticVec<Vec<i32>, 5> = from_items(vec![vec![1], vec![2], vec![3], vec![4], vec![5]]);
    let mut it5 = xs5.into_iter();
    assert_eq!(it5.nth(2).unwrap(), vec![3]);
    assert_eq!(it5.len(), 2);
    assert_eq!(it5.next().unwrap(), vec![4]);
    assert_eq!(it5.next_back().unwrap(), vec![5]);
    assert_eq!(it5.nth(0), None);
    let xs7: StaticVec<Vec<i32>, 6> =
        from_items((1..7).map(|k| vec![k, k]).collect());
    let mut it7 = xs7.into_iter();
    assert_eq!(it7.nth(5), Some(vec![6, 6]));
    assert!(it7.is_empty());
    let vlast: StaticVec<Zst, 16> = from_items(vec![Zst; 16]);
    let mut itlast = vlast.into_iter();
    assert_eq!(itlast.nth(13).unwrap(), Zst);
}

#[test]
fn into_iter_nth_back() {
    let v3: StaticVec<Zst, 4> = from_items(vec![Zst; 4]);
    let mut i3 = v3.into_iter();
    assert_eq!(i3.nth_back(2).unwrap(), Zst);
    assert_eq!(i3.len(), 1);
    assert_eq!(i3.nth_back(0).unwrap(), Zst);
    assert_eq!(i3.nth_back(0), None);
    assert_eq!(i3.nth_back(0), None);
    let v4 = StaticVec::<i32, 4>::new_from_slice(&[1, 2, 3, 4]);
    let mut i4 = v4.into_iter();
    assert_eq!(i4.nth_back(2).unwrap(), 2);
    assert_eq!(i4.len(), 1);
    assert_eq!(i4.nth_back(0).unwrap(), 1);
    assert_eq!(i4.nth_back(0), None);
    assert_eq!(i4.nth_back(0), None);
    let xs5: StaticVec<Vec<i32>, 5> = from_items(vec![vec![1], vec![2], vec![3], vec![4], vec![5]]);
    let mut it5 = xs5.into_iter();
    assert_eq!(it5.nth_back(1).unwrap(), vec![4]);
    assert_eq!(it5.len(), 3);
    assert_eq!(it5.nth_back(7), None);
    assert!(it5.is_empty());
}

#[test]
fn try_extend_from_slice() {
    let mut v = StaticVec::<i32, 3>::new_from_slice(&[1, 2, 3]);
    assert_eq!(v.try_extend_from_slice(&[2, 3]), Err(CapacityError::<3> {}));
    assert_eq!(contents(&v), vec![1, 2, 3]);
    let mut w = StaticVec::<i32, 4>::new_from_slice(&[1, 2, 3]);
    assert_eq!(w.try_extend_from_slice(&[2]), Ok(()));
    assert_eq!(contents(&w), vec![1, 2, 3, 2]);
}
