//! The native shapes the codec can carry: a closed universe of primitives,
//! sequences, mappings and records, together with the shape descriptions the
//! decoder is driven by.
//!
//! `Native` is what the encoder consumes and the decoder produces; `Shape`
//! tells the decoder which native shape to reconstruct from a value tree.

use vstd::prelude::*;

verus! {

/// A native structured datum. Double-precision floats are carried as their
/// IEEE 754 bit pattern; `Char` is transmitted as a single byte, so only code
/// points below 256 survive a round trip. `I8` and `Nil` have no wire
/// representation and never encode.
#[derive(PartialEq, Debug)]
pub enum Native {
    U8(u8),
    U16(u16),
    U32(u32),
    U64(u64),
    Usize(usize),
    I8(i8),
    I16(i16),
    I32(i32),
    I64(i64),
    Isize(isize),
    Bool(bool),
    Char(char),
    Str(String),
    Double(u64),
    Nil,
    Sequence(Vec<Native>),
    Mapping(Vec<(Native, Native)>),
    Record(Vec<Native>),
}

/// View of a `Native`.
pub enum NativeV {
    U8(u8),
    U16(u16),
    U32(u32),
    U64(u64),
    Usize(usize),
    I8(i8),
    I16(i16),
    I32(i32),
    I64(i64),
    Isize(isize),
    Bool(bool),
    Char(char),
    Str(Seq<char>),
    Double(u64),
    Nil,
    Sequence(Seq<NativeV>),
    Mapping(Seq<(NativeV, NativeV)>),
    Record(Seq<NativeV>),
}

/// The description of a native shape: what the decoder is asked to rebuild.
/// `F32` names the 32-bit float target, which the value model cannot
/// represent; asking for it always fails.
#[derive(PartialEq, Debug)]
pub enum Shape {
    U8,
    U16,
    U32,
    U64,
    Usize,
    I8,
    I16,
    I32,
    I64,
    Isize,
    Bool,
    Char,
    Str,
    Double,
    F32,
    Sequence(Box<Shape>),
    Mapping(Box<Shape>, Box<Shape>),
    Record(Vec<Shape>),
}

/// View of a `Shape`.
pub enum ShapeV {
    U8,
    U16,
    U32,
    U64,
    Usize,
    I8,
    I16,
    I32,
    I64,
    Isize,
    Bool,
    Char,
    Str,
    Double,
    F32,
    Sequence(Box<ShapeV>),
    Mapping(Box<ShapeV>, Box<ShapeV>),
    Record(Seq<ShapeV>),
}

// ---------------------------------------------------------------------------
// Views of the executable types
// ---------------------------------------------------------------------------

/// The views of a run of natives, in order.
pub open spec fn view_natives(s: Seq<Native>) -> Seq<NativeV>
    decreases s,
{
    if s.len() == 0 {
        Seq::empty()
    } else {
        view_natives(s.drop_last()).push(s.last()@)
    }
}

/// The views of a run of key/value pairs, in order.
pub open spec fn view_pairs(s: Seq<(Native, Native)>) -> Seq<(NativeV, NativeV)>
    decreases s,
{
    if s.len() == 0 {
        Seq::empty()
    } else {
        view_pairs(s.drop_last()).push((s.last().0@, s.last().1@))
    }
}

impl View for Native {
    type V = NativeV;

    open spec fn view(&self) -> NativeV
        decreases self,
    {
        match self {
            Native::U8(x) => NativeV::U8(*x),
            Native::U16(x) => NativeV::U16(*x),
            Native::U32(x) => NativeV::U32(*x),
            Native::U64(x) => NativeV::U64(*x),
            Native::Usize(x) => NativeV::Usize(*x),
            Native::I8(x) => NativeV::I8(*x),
            Native::I16(x) => NativeV::I16(*x),
            Native::I32(x) => NativeV::I32(*x),
            Native::I64(x) => NativeV::I64(*x),
            Native::Isize(x) => NativeV::Isize(*x),
            Native::Bool(x) => NativeV::Bool(*x),
            Native::Char(x) => NativeV::Char(*x),
            Native::Str(s) => NativeV::Str(s@),
            Native::Double(bits) => NativeV::Double(*bits),
            Native::Nil => NativeV::Nil,
            Native::Sequence(items) => NativeV::Sequence(view_natives(items@)),
            Native::Mapping(pairs) => NativeV::Mapping(view_pairs(pairs@)),
            Native::Record(fields) => NativeV::Record(view_natives(fields@)),
        }
    }
}

/// The views of a run of shapes, in order.
pub open spec fn view_shapes(s: Seq<Shape>) -> Seq<ShapeV>
    decreases s,
{
    if s.len() == 0 {
        Seq::empty()
    } else {
        view_shapes(s.drop_last()).push(s.last()@)
    }
}

impl View for Shape {
    type V = ShapeV;

    open spec fn view(&self) -> ShapeV
        decreases self,
    {
        match self {
            Shape::U8 => ShapeV::U8,
            Shape::U16 => ShapeV::U16,
            Shape::U32 => ShapeV::U32,
            Shape::U64 => ShapeV::U64,
            Shape::Usize => ShapeV::Usize,
            Shape::I8 => ShapeV::I8,
            Shape::I16 => ShapeV::I16,
            Shape::I32 => ShapeV::I32,
            Shape::I64 => ShapeV::I64,
            Shape::Isize => ShapeV::Isize,
            Shape::Bool => ShapeV::Bool,
            Shape::Char => ShapeV::Char,
            Shape::Str => ShapeV::Str,
            Shape::Double => ShapeV::Double,
            Shape::F32 => ShapeV::F32,
            Shape::Sequence(inner) => ShapeV::Sequence(Box::new((**inner)@)),
            Shape::Mapping(k, v) => ShapeV::Mapping(Box::new((**k)@), Box::new((**v)@)),
            Shape::Record(fields) => ShapeV::Record(view_shapes(fields@)),
        }
    }
}

// ---------------------------------------------------------------------------
// Shape derivation and the supported subset
// ---------------------------------------------------------------------------

/// Whether a native is one of the basic kinds: those that encode to a
/// `BasicValue` and may therefore serve as a mapping key.
pub open spec fn basic_kind(n: NativeV) -> bool {
    match n {
        NativeV::U8(_) => true,
        NativeV::U16(_) => true,
        NativeV::U32(_) => true,
        NativeV::U64(_) => true,
        NativeV::Usize(_) => true,
        NativeV::I16(_) => true,
        NativeV::I32(_) => true,
        NativeV::I64(_) => true,
        NativeV::Isize(_) => true,
        NativeV::Bool(_) => true,
        NativeV::Char(_) => true,
        NativeV::Str(_) => true,
        _ => false,
    }
}

/// The shapes of a run of natives, in order.
pub open spec fn shapes_of(s: Seq<NativeV>) -> Seq<ShapeV>
    decreases s,
{
    if s.len() == 0 {
        Seq::empty()
    } else {
        shapes_of(s.drop_last()).push(shape_of(s.last()))
    }
}

/// The shape a native has. For an empty sequence or mapping no element shape
/// can be derived; a placeholder stands in, and such natives are not well
/// shaped.
pub open spec fn shape_of(n: NativeV) -> ShapeV
    decreases n,
{
    match n {
        NativeV::U8(_) => ShapeV::U8,
        NativeV::U16(_) => ShapeV::U16,
        NativeV::U32(_) => ShapeV::U32,
        NativeV::U64(_) => ShapeV::U64,
        NativeV::Usize(_) => ShapeV::Usize,
        NativeV::I8(_) => ShapeV::I8,
        NativeV::I16(_) => ShapeV::I16,
        NativeV::I32(_) => ShapeV::I32,
        NativeV::I64(_) => ShapeV::I64,
        NativeV::Isize(_) => ShapeV::Isize,
        NativeV::Bool(_) => ShapeV::Bool,
        NativeV::Char(_) => ShapeV::Char,
        NativeV::Str(_) => ShapeV::Str,
        NativeV::Double(_) => ShapeV::Double,
        NativeV::Nil => ShapeV::U8,
        NativeV::Sequence(items) => ShapeV::Sequence(
            Box::new(if items.len() == 0 { ShapeV::U8 } else { shape_of(items[0]) }),
        ),
        NativeV::Mapping(pairs) => ShapeV::Mapping(
            Box::new(if pairs.len() == 0 { ShapeV::U8 } else { shape_of(pairs[0].0) }),
            Box::new(if pairs.len() == 0 { ShapeV::U8 } else { shape_of(pairs[0].1) }),
        ),
        NativeV::Record(fields) => ShapeV::Record(shapes_of(fields)),
    }
}

/// The supported subset of natives: every shape the wire value model can
/// represent and reconstruct. Sequences and mappings are non-empty and
/// homogeneous, mapping keys are basic kinds, characters fit in a byte, and
/// `I8` and `Nil` are out.
pub open spec fn well_shaped(n: NativeV) -> bool
    decreases n,
{
    match n {
        NativeV::U8(_) => true,
        NativeV::U16(_) => true,
        NativeV::U32(_) => true,
        NativeV::U64(_) => true,
        NativeV::Usize(_) => true,
        NativeV::I8(_) => false,
        NativeV::I16(_) => true,
        NativeV::I32(_) => true,
        NativeV::I64(_) => true,
        NativeV::Isize(_) => true,
        NativeV::Bool(_) => true,
        NativeV::Char(c) => (c as u32) < 256,
        NativeV::Str(_) => true,
        NativeV::Double(_) => true,
        NativeV::Nil => false,
        NativeV::Sequence(items) => {
            &&& items.len() > 0
            &&& forall|i: int| 0 <= i < items.len() ==> well_shaped(#[trigger] items[i])
            &&& forall|i: int|
                0 <= i < items.len() ==> shape_of(#[trigger] items[i]) == shape_of(items[0])
        },
        NativeV::Mapping(pairs) => {
            &&& pairs.len() > 0
            &&& forall|i: int|
                0 <= i < pairs.len() ==> {
                    &&& well_shaped((#[trigger] pairs[i]).0)
                    &&& well_shaped(pairs[i].1)
                    &&& basic_kind(pairs[i].0)
                    &&& shape_of(pairs[i].0) == shape_of(pairs[0].0)
                    &&& shape_of(pairs[i].1) == shape_of(pairs[0].1)
                }
        },
        NativeV::Record(fields) => forall|i: int|
            0 <= i < fields.len() ==> well_shaped(#[trigger] fields[i]),
    }
}

// ---------------------------------------------------------------------------
// Facts about the view helpers
// ---------------------------------------------------------------------------

pub broadcast proof fn lemma_view_natives_len(s: Seq<Native>)
    ensures
        #[trigger] view_natives(s).len() == s.len(),
    decreases s,
{
    if s.len() > 0 {
        lemma_view_natives_len(s.drop_last());
        assert(view_natives(s) == view_natives(s.drop_last()).push(s.last()@));
    } else {
        assert(view_natives(s) == Seq::<NativeV>::empty());
    }
}

pub broadcast proof fn lemma_view_natives_index(s: Seq<Native>, i: int)
    requires
        0 <= i < s.len(),
    ensures
        view_natives(s).len() == s.len(),
        #[trigger] view_natives(s)[i] == s[i]@,
    decreases s,
{
    lemma_view_natives_len(s);
    assert(view_natives(s) == view_natives(s.drop_last()).push(s.last()@));
    if i < s.len() - 1 {
        lemma_view_natives_index(s.drop_last(), i);
    }
}

pub broadcast proof fn lemma_view_natives_push(s: Seq<Native>, n: Native)
    ensures
        #[trigger] view_natives(s.push(n)) == view_natives(s).push(n@),
{
    assert(s.push(n).drop_last() =~= s);
    assert(view_natives(s.push(n)) == view_natives(s.push(n).drop_last()).push(s.push(n).last()@));
}

pub broadcast proof fn lemma_view_pairs_push(s: Seq<(Native, Native)>, p: (Native, Native))
    ensures
        #[trigger] view_pairs(s.push(p)) == view_pairs(s).push((p.0@, p.1@)),
{
    assert(s.push(p).drop_last() =~= s);
    assert(view_pairs(s.push(p)) == view_pairs(s.push(p).drop_last()).push(
        (s.push(p).last().0@, s.push(p).last().1@),
    ));
}

pub broadcast proof fn lemma_view_pairs_len(s: Seq<(Native, Native)>)
    ensures
        #[trigger] view_pairs(s).len() == s.len(),
    decreases s,
{
    if s.len() > 0 {
        lemma_view_pairs_len(s.drop_last());
        assert(view_pairs(s) == view_pairs(s.drop_last()).push((s.last().0@, s.last().1@)));
    } else {
        assert(view_pairs(s) == Seq::<(NativeV, NativeV)>::empty());
    }
}

pub broadcast proof fn lemma_view_pairs_index(s: Seq<(Native, Native)>, i: int)
    requires
        0 <= i < s.len(),
    ensures
        view_pairs(s).len() == s.len(),
        #[trigger] view_pairs(s)[i] == (s[i].0@, s[i].1@),
    decreases s,
{
    lemma_view_pairs_len(s);
    assert(view_pairs(s) == view_pairs(s.drop_last()).push((s.last().0@, s.last().1@)));
    if i < s.len() - 1 {
        lemma_view_pairs_index(s.drop_last(), i);
    }
}

pub broadcast proof fn lemma_view_shapes_len(s: Seq<Shape>)
    ensures
        #[trigger] view_shapes(s).len() == s.len(),
    decreases s,
{
    if s.len() > 0 {
        lemma_view_shapes_len(s.drop_last());
        assert(view_shapes(s) == view_shapes(s.drop_last()).push(s.last()@));
    } else {
        assert(view_shapes(s) == Seq::<ShapeV>::empty());
    }
}

pub broadcast proof fn lemma_view_shapes_index(s: Seq<Shape>, i: int)
    requires
        0 <= i < s.len(),
    ensures
        view_shapes(s).len() == s.len(),
        #[trigger] view_shapes(s)[i] == s[i]@,
    decreases s,
{
    lemma_view_shapes_len(s);
    assert(view_shapes(s) == view_shapes(s.drop_last()).push(s.last()@));
    if i < s.len() - 1 {
        lemma_view_shapes_index(s.drop_last(), i);
    }
}

pub broadcast proof fn lemma_shapes_of_len(s: Seq<NativeV>)
    ensures
        #[trigger] shapes_of(s).len() == s.len(),
    decreases s,
{
    if s.len() > 0 {
        lemma_shapes_of_len(s.drop_last());
        assert(shapes_of(s) == shapes_of(s.drop_last()).push(shape_of(s.last())));
    } else {
        assert(shapes_of(s) == Seq::<ShapeV>::empty());
    }
}

pub broadcast proof fn lemma_shapes_of_index(s: Seq<NativeV>, i: int)
    requires
        0 <= i < s.len(),
    ensures
        shapes_of(s).len() == s.len(),
        #[trigger] shapes_of(s)[i] == shape_of(s[i]),
    decreases s,
{
    lemma_shapes_of_len(s);
    assert(shapes_of(s) == shapes_of(s.drop_last()).push(shape_of(s.last())));
    if i < s.len() - 1 {
        lemma_shapes_of_index(s.drop_last(), i);
    }
}

} // verus!

