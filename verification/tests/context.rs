use raypack::{AsIntersectContext, IntersectContext, IntersectContextExt, IntersectContextFlags,
    INVALID_ID};

#[test]
fn context_new_sets_flags_and_empty_slot() {
    let c = IntersectContext::new(IntersectContextFlags::Coherent);
    assert_eq!(c.flags, IntersectContextFlags::Coherent);
    assert_eq!(c.inst_id, INVALID_ID);
}

#[test]
fn context_shortcuts() {
    assert_eq!(IntersectContext::coherent().flags, IntersectContextFlags::Coherent);
    assert_eq!(IntersectContext::incoherent().flags, IntersectContextFlags::Incoherent);
    assert_eq!(IntersectContext::coherent().inst_id, INVALID_ID);
}

#[test]
fn bare_context_has_no_ext() {
    let c = IntersectContext::incoherent();
    assert_eq!(c.as_extended(), None::<&()>);
    assert_eq!(c.as_context().flags, IntersectContextFlags::Incoherent);
}

#[test]
fn context_ext_constructors() {
    let e = IntersectContextExt::new(IntersectContextFlags::Coherent, 5u64);
    assert_eq!(e.ctx.flags, IntersectContextFlags::Coherent);
    assert_eq!(e.ctx.inst_id, INVALID_ID);
    assert_eq!(e.ext, 5);
    let c = IntersectContextExt::coherent([1u32, 2u32]);
    assert_eq!(c.ctx.flags, IntersectContextFlags::Coherent);
    assert_eq!(c.ext, [1, 2]);
    let i = IntersectContextExt::incoherent("ray data".to_string());
    assert_eq!(i.ctx.flags, IntersectContextFlags::Incoherent);
    assert_eq!(i.ext, "ray data");
}

#[test]
fn context_ext_round_trip() {
    let mut e = IntersectContextExt::coherent((7u32, 9u32));
    let base = e.as_mut_context();
    base.inst_id = 4;
    base.flags = IntersectContextFlags::Incoherent;
    assert_eq!(e.as_extended(), Some(&(7u32, 9u32)));
    assert_eq!(e.as_context().inst_id, 4);
    if let Some(x) = e.as_mut_extended() {
        x.0 = 8;
    }
    assert_eq!(e.ext, (8, 9));
    assert_eq!(e.ctx.inst_id, 4);
}
