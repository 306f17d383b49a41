use framed_server::{EventSet, TokenSlab};

#[test]
fn event_set_union_holds_both() {
    let e = EventSet::readable().union(EventSet::hup());
    assert!(e.is_readable());
    assert!(e.is_hup());
    assert!(!e.is_writable());
    assert!(!e.is_error());
    assert_eq!(EventSet::none(), EventSet { readable: false, writable: false, error: false, hup: false });
}

#[test]
fn slab_insert_get_remove() {
    let mut slab: TokenSlab<u32> = TokenSlab::new(3);
    assert_eq!(slab.count(), 0);
    let a = slab.insert(10).unwrap();
    let b = slab.insert(20).unwrap();
    assert_eq!(a, 0);
    assert_eq!(b, 1);
    assert_eq!(slab.get(a), Some(&10));
    assert_eq!(slab.get(b), Some(&20));
    assert_eq!(slab.get(2), None);
    assert!(slab.contains(a));
    assert_eq!(slab.remove(a), Some(10));
    assert!(!slab.contains(a));
    assert_eq!(slab.get(a), None);
    assert_eq!(slab.remove(a), None);
    assert_eq!(slab.count(), 1);
}

#[test]
fn slab_refuses_when_full() {
    let mut slab: TokenSlab<u32> = TokenSlab::new(2);
    assert!(slab.has_remaining());
    slab.insert(1).unwrap();
    slab.insert(2).unwrap();
    assert!(!slab.has_remaining());
    assert_eq!(slab.vacant_key(), None);
    assert_eq!(slab.insert(3), None);
    assert_eq!(slab.count(), 2);
    assert_eq!(slab.capacity(), 2);
}

#[test]
fn slab_reuses_most_recently_freed_key() {
    let mut slab: TokenSlab<&str> = TokenSlab::new(16);
    let t0 = slab.insert("a").unwrap();
    let t1 = slab.insert("b").unwrap();
    let t2 = slab.insert("c").unwrap();
    slab.remove(t0);
    slab.remove(t2);
    assert_eq!(slab.vacant_key(), Some(t2));
    assert_eq!(slab.insert("d"), Some(t2));
    assert_eq!(slab.insert("e"), Some(t0));
    assert_eq!(slab.insert("f"), Some(3));
    assert_eq!(slab.get(t1), Some(&"b"));
}

#[test]
fn slab_get_mut_changes_value() {
    let mut slab: TokenSlab<u32> = TokenSlab::new(4);
    let t = slab.insert(5).unwrap();
    {
        let v = slab.get_mut(t).unwrap();
        assert_eq!(*v, 5);
        *v = 12;
    }
    assert_eq!(slab.get(t), Some(&12));
    assert!(slab.get_mut(3).is_none());
}
