//! The laws the codec obeys, proved once and for all over the mathematical
//! models: every well-shaped native survives an encode/decode round trip
//! bit-exactly, the encoder only builds well-formed value trees, whose
//! signatures are the ones the grammar derives from the native's shape, and
//! the three text kinds all decode to the same plain text.

use vstd::prelude::*;

use crate::decoder::{
    decode_basic, decode_elems, decode_entries, decode_fields, decode_spec, entry_step,
    DecodeError,
};
use crate::encoder::{encode_items, encode_pairs, encode_spec, pair_step, EncoderError};
use crate::native::{basic_kind, shape_of, shapes_of, well_shaped, NativeV, ShapeV};
use crate::types::{
    array_sig, basic_sig, concat_sigs, dict_sig, sig_of, struct_sig, wf, BasicV, EntryV, ValueV,
};

verus! {

// ---------------------------------------------------------------------------
// The signature a shape determines
// ---------------------------------------------------------------------------

/// The signatures of a run of shapes, concatenated in order.
pub open spec fn concat_shape_sigs(shapes: Seq<ShapeV>) -> Seq<char>
    decreases shapes,
{
    if shapes.len() == 0 {
        Seq::empty()
    } else {
        sig_of_shape(shapes[0]) + concat_shape_sigs(shapes.subrange(1, shapes.len() as int))
    }
}

/// The signature the grammar derives from a shape. The two shapes with no
/// wire representation, `I8` and `F32`, have none.
pub open spec fn sig_of_shape(s: ShapeV) -> Seq<char>
    decreases s,
{
    match s {
        ShapeV::U8 => seq!['y'],
        ShapeV::U16 => seq!['q'],
        ShapeV::U32 => seq!['u'],
        ShapeV::U64 => seq!['t'],
        ShapeV::Usize => seq!['t'],
        ShapeV::I8 => Seq::empty(),
        ShapeV::I16 => seq!['n'],
        ShapeV::I32 => seq!['i'],
        ShapeV::I64 => seq!['x'],
        ShapeV::Isize => seq!['x'],
        ShapeV::Bool => seq!['b'],
        ShapeV::Char => seq!['y'],
        ShapeV::Str => seq!['s'],
        ShapeV::Double => seq!['d'],
        ShapeV::F32 => Seq::empty(),
        ShapeV::Sequence(inner) => seq!['a'] + sig_of_shape(*inner),
        ShapeV::Mapping(ks, vs) => seq!['a', '{'] + sig_of_shape(*ks) + sig_of_shape(*vs)
            + seq!['}'],
        ShapeV::Record(shapes) => seq!['('] + concat_shape_sigs(shapes) + seq![')'],
    }
}

/// Every shape with a wire representation has a non-empty signature.
proof fn lemma_sig_of_shape_nonempty(s: ShapeV)
    requires
        !(s is I8),
        !(s is F32),
    ensures
        sig_of_shape(s).len() >= 1,
{
}

// ---------------------------------------------------------------------------
// Round trip
// ---------------------------------------------------------------------------

/// A well-shaped native of a basic kind encodes to a basic value.
proof fn lemma_encode_basic_kind(k: NativeV)
    requires
        basic_kind(k),
        well_shaped(k),
    ensures
        encode_spec(k) is Ok,
        encode_spec(k)->Ok_0 is Basic,
{
}

/// **Round trip.** Every well-shaped native encodes, and decoding the
/// resulting value tree at the native's own shape reproduces the native
/// exactly — bit-exact for integers, booleans and strings, structurally exact
/// for nested sequences, mappings and records.
pub proof fn lemma_round_trip(n: NativeV)
    requires
        well_shaped(n),
    ensures
        encode_spec(n) is Ok,
        decode_spec(encode_spec(n)->Ok_0, shape_of(n)) == Ok::<NativeV, DecodeError>(n),
    decreases n, 0int,
{
    match n {
        NativeV::Sequence(items) => {
            assert forall|i: int|
                0 <= i < items.len() implies well_shaped(#[trigger] items[i]) && shape_of(
                items[i],
            ) == shape_of(items[0]) by {
                assert(well_shaped(items[i]) && shape_of(items[i]) == shape_of(items[0]));
            }
            lemma_round_trip_elems(items, shape_of(items[0]));
            let vals = encode_items(items)->Ok_0;
            assert(encode_spec(n) == Ok::<ValueV, EncoderError>(
                ValueV::Array(
                    crate::types::ArrayV {
                        objects: vals,
                        signature: array_sig(sig_of(vals[0])),
                    },
                ),
            ));
        },
        NativeV::Mapping(pairs) => {
            assert forall|i: int|
                0 <= i < pairs.len() implies {
                &&& well_shaped((#[trigger] pairs[i]).0)
                &&& well_shaped(pairs[i].1)
                &&& basic_kind(pairs[i].0)
                &&& shape_of(pairs[i].0) == shape_of(pairs[0].0)
                &&& shape_of(pairs[i].1) == shape_of(pairs[0].1)
            } by {
                assert(well_shaped(pairs[i].0) && well_shaped(pairs[i].1) && basic_kind(
                    pairs[i].0,
                ) && shape_of(pairs[i].0) == shape_of(pairs[0].0) && shape_of(pairs[i].1)
                    == shape_of(pairs[0].1));
            }
            lemma_round_trip_pairs(pairs, shape_of(pairs[0].0), shape_of(pairs[0].1));
        },
        NativeV::Record(fields) => {
            assert forall|i: int| 0 <= i < fields.len() implies well_shaped(
                #[trigger] fields[i],
            ) by {
                assert(well_shaped(fields[i]));
            }
            lemma_round_trip_fields(fields);
            crate::native::lemma_shapes_of_len(fields);
            let vals = encode_items(fields)->Ok_0;
            assert(shape_of(n) == ShapeV::Record(shapes_of(fields)));
            assert(encode_spec(n) == Ok::<ValueV, EncoderError>(
                ValueV::Struct(
                    crate::types::StructV { objects: vals, signature: struct_sig(vals) },
                ),
            ));
            assert(decode_spec(encode_spec(n)->Ok_0, shape_of(n)) == Ok::<NativeV, DecodeError>(
                NativeV::Record(fields),
            ));
        },
        _ => {},
    }
}

/// Round trip for a homogeneous run of sequence elements.
proof fn lemma_round_trip_elems(items: Seq<NativeV>, inner: ShapeV)
    requires
        forall|i: int|
            0 <= i < items.len() ==> well_shaped(#[trigger] items[i]) && shape_of(items[i])
                == inner,
    ensures
        encode_items(items) is Ok,
        encode_items(items)->Ok_0.len() == items.len(),
        decode_elems(encode_items(items)->Ok_0, inner) == Ok::<Seq<NativeV>, DecodeError>(items),
    decreases items, 1int,
{
    if items.len() == 0 {
        assert(encode_items(items)->Ok_0 =~= Seq::<ValueV>::empty());
        assert(decode_elems(encode_items(items)->Ok_0, inner) == Ok::<Seq<NativeV>, DecodeError>(
            Seq::empty(),
        ));
        assert(items =~= Seq::<NativeV>::empty());
    } else {
        assert forall|i: int|
            0 <= i < items.drop_last().len() implies well_shaped(
            #[trigger] items.drop_last()[i],
        ) && shape_of(items.drop_last()[i]) == inner by {
            assert(items.drop_last()[i] == items[i]);
        }
        lemma_round_trip_elems(items.drop_last(), inner);
        assert(items.last() == items[items.len() - 1]);
        lemma_round_trip(items.last());
        let vals = encode_items(items)->Ok_0;
        assert(vals == encode_items(items.drop_last())->Ok_0.push(
            encode_spec(items.last())->Ok_0,
        ));
        assert(vals.drop_last() =~= encode_items(items.drop_last())->Ok_0);
        assert(decode_elems(vals, inner) == Ok::<Seq<NativeV>, DecodeError>(
            items.drop_last().push(items.last()),
        ));
        assert(items.drop_last().push(items.last()) =~= items);
    }
}

/// Round trip for a homogeneous run of mapping entries.
proof fn lemma_round_trip_pairs(pairs: Seq<(NativeV, NativeV)>, ks: ShapeV, vs: ShapeV)
    requires
        forall|i: int|
            0 <= i < pairs.len() ==> {
                &&& well_shaped((#[trigger] pairs[i]).0)
                &&& well_shaped(pairs[i].1)
                &&& basic_kind(pairs[i].0)
                &&& shape_of(pairs[i].0) == ks
                &&& shape_of(pairs[i].1) == vs
            },
    ensures
        encode_pairs(pairs) is Ok,
        encode_pairs(pairs)->Ok_0.len() == pairs.len(),
        decode_entries(encode_pairs(pairs)->Ok_0, ks, vs) == Ok::<
            Seq<(NativeV, NativeV)>,
            DecodeError,
        >(pairs),
    decreases pairs, 1int,
{
    if pairs.len() == 0 {
        assert(encode_pairs(pairs)->Ok_0 =~= Seq::<EntryV>::empty());
        assert(decode_entries(encode_pairs(pairs)->Ok_0, ks, vs) == Ok::<
            Seq<(NativeV, NativeV)>,
            DecodeError,
        >(Seq::empty()));
        assert(pairs =~= Seq::<(NativeV, NativeV)>::empty());
    } else {
        assert forall|i: int|
            0 <= i < pairs.drop_last().len() implies {
            &&& well_shaped((#[trigger] pairs.drop_last()[i]).0)
            &&& well_shaped(pairs.drop_last()[i].1)
            &&& basic_kind(pairs.drop_last()[i].0)
            &&& shape_of(pairs.drop_last()[i].0) == ks
            &&& shape_of(pairs.drop_last()[i].1) == vs
        } by {
            assert(pairs.drop_last()[i] == pairs[i]);
        }
        lemma_round_trip_pairs(pairs.drop_last(), ks, vs);
        let p = pairs.last();
        assert(p == pairs[pairs.len() - 1]);
        lemma_encode_basic_kind(p.0);
        lemma_round_trip(p.0);
        lemma_round_trip(p.1);
        let b = encode_spec(p.0)->Ok_0->Basic_0;
        let vv = encode_spec(p.1)->Ok_0;
        assert(pair_step(p) == Ok::<EntryV, EncoderError>(EntryV { key: b, value: vv }));
        let entries = encode_pairs(pairs)->Ok_0;
        assert(entries == encode_pairs(pairs.drop_last())->Ok_0.push(
            EntryV { key: b, value: vv },
        ));
        assert(entries.drop_last() =~= encode_pairs(pairs.drop_last())->Ok_0);
        assert(decode_basic(ValueV::Basic(b), ks) == decode_spec(ValueV::Basic(b), ks));
        assert(entry_step(entries.last(), ks, vs) == Ok::<(NativeV, NativeV), DecodeError>(
            (p.0, p.1),
        ));
        assert((p.0, p.1) == p);
        assert(decode_entries(entries, ks, vs) == Ok::<Seq<(NativeV, NativeV)>, DecodeError>(
            pairs.drop_last().push(p),
        ));
        assert(pairs.drop_last().push(p) =~= pairs);
    }
}

/// Two runs of field values that agree below the shapes' length decode the
/// same: field decoding never looks past the declared fields.
proof fn lemma_decode_fields_prefix(objs1: Seq<ValueV>, objs2: Seq<ValueV>, shapes: Seq<ShapeV>)
    requires
        forall|j: int| 0 <= j < shapes.len() ==> objs1[j] == objs2[j],
    ensures
        decode_fields(objs1, shapes) == decode_fields(objs2, shapes),
    decreases shapes,
{
    if shapes.len() > 0 {
        lemma_decode_fields_prefix(objs1, objs2, shapes.drop_last());
    }
}

/// Round trip for a heterogeneous run of record fields.
proof fn lemma_round_trip_fields(fields: Seq<NativeV>)
    requires
        forall|i: int| 0 <= i < fields.len() ==> well_shaped(#[trigger] fields[i]),
    ensures
        encode_items(fields) is Ok,
        encode_items(fields)->Ok_0.len() == fields.len(),
        decode_fields(encode_items(fields)->Ok_0, shapes_of(fields)) == Ok::<
            Seq<NativeV>,
            DecodeError,
        >(fields),
    decreases fields, 1int,
{
    crate::native::lemma_shapes_of_len(fields);
    if fields.len() == 0 {
        assert(encode_items(fields)->Ok_0 =~= Seq::<ValueV>::empty());
        assert(shapes_of(fields) =~= Seq::<ShapeV>::empty());
        assert(decode_fields(encode_items(fields)->Ok_0, shapes_of(fields)) == Ok::<
            Seq<NativeV>,
            DecodeError,
        >(Seq::empty()));
        assert(fields =~= Seq::<NativeV>::empty());
    } else {
        assert forall|i: int| 0 <= i < fields.drop_last().len() implies well_shaped(
            #[trigger] fields.drop_last()[i],
        ) by {
            assert(fields.drop_last()[i] == fields[i]);
        }
        lemma_round_trip_fields(fields.drop_last());
        assert(fields.last() == fields[fields.len() - 1]);
        lemma_round_trip(fields.last());
        let vals = encode_items(fields)->Ok_0;
        let shapes = shapes_of(fields);
        assert(vals == encode_items(fields.drop_last())->Ok_0.push(
            encode_spec(fields.last())->Ok_0,
        ));
        assert(vals.drop_last() =~= encode_items(fields.drop_last())->Ok_0);
        assert(shapes == shapes_of(fields.drop_last()).push(shape_of(fields.last())));
        assert(shapes.drop_last() =~= shapes_of(fields.drop_last()));
        lemma_decode_fields_prefix(vals, vals.drop_last(), shapes.drop_last());
        assert(decode_fields(vals, shapes.drop_last()) == Ok::<Seq<NativeV>, DecodeError>(
            fields.drop_last(),
        ));
        assert(shapes.len() == fields.len());
        assert(vals[shapes.len() - 1] == vals.last());
        assert(shapes.last() == shape_of(fields.last()));
        assert(decode_fields(vals, shapes) == Ok::<Seq<NativeV>, DecodeError>(
            fields.drop_last().push(fields.last()),
        ));
        assert(fields.drop_last().push(fields.last()) =~= fields);
    }
}

// ---------------------------------------------------------------------------
// Signature correctness
// ---------------------------------------------------------------------------

/// **Signature correctness.** Every well-shaped native encodes to a
/// well-formed value tree: each signature cached in it is the one the grammar
/// derives from its shape, and the tree's own signature is the one derived
/// from the native's shape.
pub proof fn lemma_encode_signature_correct(n: NativeV)
    requires
        well_shaped(n),
    ensures
        encode_spec(n) is Ok,
        wf(encode_spec(n)->Ok_0),
        sig_of(encode_spec(n)->Ok_0) == sig_of_shape(shape_of(n)),
    decreases n, 0int,
{
    match n {
        NativeV::Sequence(items) => {
            lemma_round_trip(n);
            assert forall|i: int| 0 <= i < items.len() implies well_shaped(
                #[trigger] items[i],
            ) by {
                assert(well_shaped(items[i]));
            }
            lemma_wf_items(items);
            let vals = encode_items(items)->Ok_0;
            let inner = sig_of_shape(shape_of(items[0]));
            let v = encode_spec(n)->Ok_0;
            assert(v->Array_0.signature =~= array_sig(inner));
            assert forall|i: int| 0 <= i < vals.len() implies wf(#[trigger] vals[i]) && sig_of(
                vals[i],
            ) == v->Array_0.signature.subrange(1, v->Array_0.signature.len() as int) by {
                assert(shape_of(items[i]) == shape_of(items[0]));
                assert(sig_of(vals[i]) == inner);
                assert(array_sig(inner).subrange(1, array_sig(inner).len() as int) =~= inner);
            }
            assert(wf(v));
        },
        NativeV::Mapping(pairs) => {
            lemma_round_trip(n);
            assert forall|i: int|
                0 <= i < pairs.len() implies {
                &&& well_shaped((#[trigger] pairs[i]).0)
                &&& well_shaped(pairs[i].1)
                &&& basic_kind(pairs[i].0)
            } by {
                assert(well_shaped(pairs[i].0) && well_shaped(pairs[i].1) && basic_kind(
                    pairs[i].0,
                ));
            }
            lemma_wf_pairs(pairs);
            let entries = encode_pairs(pairs)->Ok_0;
            let ksig = sig_of_shape(shape_of(pairs[0].0));
            let vsig = sig_of_shape(shape_of(pairs[0].1));
            let v = encode_spec(n)->Ok_0;
            let cached = v->Dictionary_0.signature;
            lemma_encode_basic_kind(pairs[0].0);
            assert(seq![basic_sig(entries[0].key)] == ksig);
            assert(sig_of(entries[0].value) == vsig);
            assert(cached == dict_sig(basic_sig(entries[0].key), vsig));
            lemma_sig_of_shape_nonempty(shape_of(pairs[0].1));
            assert(cached.len() == 4 + vsig.len());
            assert(cached[0] == 'a' && cached[1] == '{' && cached.last() == '}');
            assert(cached[2] == basic_sig(entries[0].key));
            assert(cached.subrange(3, cached.len() - 1) =~= vsig);
            assert forall|i: int|
                0 <= i < entries.len() implies wf((#[trigger] entries[i]).value) && basic_sig(
                entries[i].key,
            ) == cached[2] && sig_of(entries[i].value) == cached.subrange(
                3,
                cached.len() - 1,
            ) by {
                assert(shape_of(pairs[i].0) == shape_of(pairs[0].0));
                assert(shape_of(pairs[i].1) == shape_of(pairs[0].1));
                assert(seq![basic_sig(entries[i].key)] == ksig);
                assert(basic_sig(entries[i].key) == ksig[0]);
                assert(basic_sig(entries[0].key) == ksig[0]);
            }
            assert(wf(v));
            assert(sig_of_shape(shape_of(n)) == seq!['a', '{'] + ksig + vsig + seq!['}']);
            assert(sig_of(v) =~= sig_of_shape(shape_of(n)));
        },
        NativeV::Record(fields) => {
            lemma_round_trip(n);
            assert forall|i: int| 0 <= i < fields.len() implies well_shaped(
                #[trigger] fields[i],
            ) by {
                assert(well_shaped(fields[i]));
            }
            lemma_wf_items(fields);
            crate::native::lemma_shapes_of_len(fields);
            let vals = encode_items(fields)->Ok_0;
            let v = encode_spec(n)->Ok_0;
            assert forall|i: int| 0 <= i < vals.len() implies sig_of(#[trigger] vals[i])
                == sig_of_shape(shapes_of(fields)[i]) by {
                crate::native::lemma_shapes_of_index(fields, i);
                assert(wf(vals[i]) && sig_of(vals[i]) == sig_of_shape(shape_of(fields[i])));
            }
            lemma_concat_sigs_match(vals, shapes_of(fields));
            assert(v->Struct_0.signature == struct_sig(vals));
            assert(wf(v));
            assert(sig_of(v) =~= sig_of_shape(shape_of(n)));
        },
        _ => {},
    }
}

/// Each value in an encoded run is well formed and carries the signature its
/// native's shape determines.
proof fn lemma_wf_items(items: Seq<NativeV>)
    requires
        forall|i: int| 0 <= i < items.len() ==> well_shaped(#[trigger] items[i]),
    ensures
        encode_items(items) is Ok,
        encode_items(items)->Ok_0.len() == items.len(),
        forall|i: int|
            0 <= i < items.len() ==> wf(#[trigger] encode_items(items)->Ok_0[i]) && sig_of(
                encode_items(items)->Ok_0[i],
            ) == sig_of_shape(shape_of(items[i])),
    decreases items, 1int,
{
    if items.len() > 0 {
        assert forall|i: int| 0 <= i < items.drop_last().len() implies well_shaped(
            #[trigger] items.drop_last()[i],
        ) by {
            assert(items.drop_last()[i] == items[i]);
        }
        lemma_wf_items(items.drop_last());
        assert(items.last() == items[items.len() - 1]);
        lemma_round_trip(items.last());
        lemma_encode_signature_correct(items.last());
        let vals = encode_items(items)->Ok_0;
        assert(vals == encode_items(items.drop_last())->Ok_0.push(
            encode_spec(items.last())->Ok_0,
        ));
        assert forall|i: int| 0 <= i < items.len() implies wf(#[trigger] vals[i]) && sig_of(
            vals[i],
        ) == sig_of_shape(shape_of(items[i])) by {
            if i < items.len() - 1 {
                assert(vals[i] == encode_items(items.drop_last())->Ok_0[i]);
                assert(items.drop_last()[i] == items[i]);
            } else {
                assert(vals[i] == encode_spec(items.last())->Ok_0);
            }
        }
    }
}

/// Each entry in an encoded run of pairs carries the key code and value
/// signature its pair's shapes determine, and a well-formed value.
proof fn lemma_wf_pairs(pairs: Seq<(NativeV, NativeV)>)
    requires
        forall|i: int|
            0 <= i < pairs.len() ==> {
                &&& well_shaped((#[trigger] pairs[i]).0)
                &&& well_shaped(pairs[i].1)
                &&& basic_kind(pairs[i].0)
            },
    ensures
        encode_pairs(pairs) is Ok,
        encode_pairs(pairs)->Ok_0.len() == pairs.len(),
        forall|i: int|
            0 <= i < pairs.len() ==> {
                &&& seq![basic_sig(#[trigger] encode_pairs(pairs)->Ok_0[i].key)] == sig_of_shape(
                    shape_of(pairs[i].0),
                )
                &&& wf(encode_pairs(pairs)->Ok_0[i].value)
                &&& sig_of(encode_pairs(pairs)->Ok_0[i].value) == sig_of_shape(
                    shape_of(pairs[i].1),
                )
            },
    decreases pairs, 1int,
{
    if pairs.len() > 0 {
        assert forall|i: int|
            0 <= i < pairs.drop_last().len() implies {
            &&& well_shaped((#[trigger] pairs.drop_last()[i]).0)
            &&& well_shaped(pairs.drop_last()[i].1)
            &&& basic_kind(pairs.drop_last()[i].0)
        } by {
            assert(pairs.drop_last()[i] == pairs[i]);
        }
        lemma_wf_pairs(pairs.drop_last());
        let p = pairs.last();
        assert(p == pairs[pairs.len() - 1]);
        lemma_encode_basic_kind(p.0);
        lemma_round_trip(p.0);
        lemma_round_trip(p.1);
        lemma_encode_signature_correct(p.0);
        lemma_encode_signature_correct(p.1);
        let b = encode_spec(p.0)->Ok_0->Basic_0;
        let vv = encode_spec(p.1)->Ok_0;
        assert(pair_step(p) == Ok::<EntryV, EncoderError>(EntryV { key: b, value: vv }));
        assert(sig_of(ValueV::Basic(b)) == seq![basic_sig(b)]);
        let entries = encode_pairs(pairs)->Ok_0;
        assert(entries == encode_pairs(pairs.drop_last())->Ok_0.push(
            EntryV { key: b, value: vv },
        ));
        assert forall|i: int|
            0 <= i < pairs.len() implies {
            &&& seq![basic_sig(#[trigger] entries[i].key)] == sig_of_shape(shape_of(pairs[i].0))
            &&& wf(entries[i].value)
            &&& sig_of(entries[i].value) == sig_of_shape(shape_of(pairs[i].1))
        } by {
            if i < pairs.len() - 1 {
                assert(entries[i] == encode_pairs(pairs.drop_last())->Ok_0[i]);
                assert(pairs.drop_last()[i] == pairs[i]);
            } else {
                assert(entries[i] == EntryV { key: b, value: vv });
            }
        }
    }
}

/// Values whose signatures match their shapes one by one concatenate to the
/// same signature run.
proof fn lemma_concat_sigs_match(vals: Seq<ValueV>, shapes: Seq<ShapeV>)
    requires
        vals.len() == shapes.len(),
        forall|i: int|
            0 <= i < vals.len() ==> sig_of(#[trigger] vals[i]) == sig_of_shape(shapes[i]),
    ensures
        concat_sigs(vals) == concat_shape_sigs(shapes),
    decreases vals.len(),
{
    if vals.len() > 0 {
        assert(vals.subrange(1, vals.len() as int).len() == shapes.subrange(
            1,
            shapes.len() as int,
        ).len());
        assert forall|i: int|
            0 <= i < vals.subrange(1, vals.len() as int).len() implies sig_of(
            #[trigger] vals.subrange(1, vals.len() as int)[i],
        ) == sig_of_shape(shapes.subrange(1, shapes.len() as int)[i]) by {
            assert(vals.subrange(1, vals.len() as int)[i] == vals[i + 1]);
            assert(shapes.subrange(1, shapes.len() as int)[i] == shapes[i + 1]);
        }
        lemma_concat_sigs_match(
            vals.subrange(1, vals.len() as int),
            shapes.subrange(1, shapes.len() as int),
        );
    }
}

// ---------------------------------------------------------------------------
// String aliasing
// ---------------------------------------------------------------------------

/// **String aliasing.** Decoding any of the three text kinds — plain string,
/// object path or type signature — at a plain-text target yields the wrapped
/// text unchanged.
pub proof fn lemma_string_aliasing(t: Seq<char>)
    ensures
        decode_spec(ValueV::Basic(BasicV::Str(t)), ShapeV::Str) == Ok::<NativeV, DecodeError>(
            NativeV::Str(t),
        ),
        decode_spec(ValueV::Basic(BasicV::ObjectPath(t)), ShapeV::Str) == Ok::<
            NativeV,
            DecodeError,
        >(NativeV::Str(t)),
        decode_spec(ValueV::Basic(BasicV::Signature(t)), ShapeV::Str) == Ok::<
            NativeV,
            DecodeError,
        >(NativeV::Str(t)),
{
}

} // verus!

