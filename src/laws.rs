use crate::formatter::{
    be_int_model, be_value, ipv4_model, ipv6_model, mpls_model, pow256, FieldDecoder,
};
use crate::parser::{
    decoded_sets, enrich, fields_at, keys_unique, lemma_upsert_keeps_unique, process_sets,
    record_of, records_of, set_type_of, KeyModel, SetHeader, SetType, TemplateModel, ValueModel,
};
use crate::state::StateModel;
use vstd::arithmetic::div_mod::{
    lemma_fundamental_div_mod, lemma_fundamental_div_mod_converse, lemma_mod_breakdown,
    lemma_mod_pos_bound, lemma_small_mod,
};
use vstd::prelude::*;

verus! {

/// The `w` low-order bytes of `n`, most significant first.
pub open spec fn be_bytes(n: nat, w: nat) -> Seq<u8>
    decreases w,
{
    if w == 0 {
        seq![]
    } else {
        be_bytes(n / 256, (w - 1) as nat).push((n % 256) as u8)
    }
}

/// Reading back `w` written bytes gives the number modulo `256^w`.
pub proof fn lemma_be_bytes_value(n: nat, w: nat)
    ensures
        be_bytes(n, w).len() == w,
        be_value(be_bytes(n, w)) == n % pow256(w),
    decreases w,
{
    if w == 0 {
    } else {
        let p = pow256((w - 1) as nat);
        lemma_be_bytes_value(n / 256, (w - 1) as nat);
        let b = be_bytes(n, w);
        assert(b.drop_last() =~= be_bytes(n / 256, (w - 1) as nat));
        lemma_pow256_positive((w - 1) as nat);
        lemma_mod_breakdown(n as int, 256, p as int);
        lemma_mod_pos_bound(n as int, 256);
        assert(256 * ((n / 256) % p) + n % 256 == ((n / 256) % p) * 256 + n % 256) by (nonlinear_arith);
    }
}

/// `256^n` is positive.
pub proof fn lemma_pow256_positive(n: nat)
    ensures
        pow256(n) > 0,
    decreases n,
{
    if n > 0 {
        lemma_pow256_positive((n - 1) as nat);
    }
}

/// Integers written big-endian in their own width are read back unchanged
/// by the integer formatter.
pub proof fn law_be_int_round_trip(a: u8, b: u16, c: u32, d: u64)
    ensures
        be_int_model(be_bytes(a as nat, 1)) == ValueModel::U8(a),
        be_int_model(be_bytes(b as nat, 2)) == ValueModel::U16(b),
        be_int_model(be_bytes(c as nat, 4)) == ValueModel::U32(c),
        be_int_model(be_bytes(d as nat, 8)) == ValueModel::U64(d),
{
    reveal_with_fuel(pow256, 9);
    lemma_be_bytes_value(a as nat, 1);
    lemma_be_bytes_value(b as nat, 2);
    lemma_be_bytes_value(c as nat, 4);
    lemma_be_bytes_value(d as nat, 8);
    lemma_pow256_values();
    let s = be_bytes(a as nat, 1);
    assert(s.drop_last() =~= Seq::<u8>::empty());
    assert(be_value(s) == s[0]);
    lemma_small_mod(b as nat, pow256(2));
    lemma_small_mod(c as nat, pow256(4));
    lemma_small_mod(d as nat, pow256(8));
}

/// The powers of 256 that the fixed widths use.
proof fn lemma_pow256_values()
    ensures
        pow256(1) == 0x100,
        pow256(2) == 0x1_0000,
        pow256(3) == 0x100_0000,
        pow256(4) == 0x1_0000_0000,
        pow256(8) == 0x1_0000_0000_0000_0000,
        pow256(16) == 0x1_0000_0000_0000_0000_0000_0000_0000_0000,
{
    reveal_with_fuel(pow256, 17);
}

/// Addresses written big-endian are read back unchanged by the address
/// formatters.
pub proof fn law_address_round_trip(v4: u32, v6: u128)
    ensures
        ipv4_model(be_bytes(v4 as nat, 4)) == ValueModel::IPv4(v4),
        ipv6_model(be_bytes(v6 as nat, 16)) == ValueModel::IPv6(v6),
{
    reveal_with_fuel(pow256, 17);
    lemma_be_bytes_value(v4 as nat, 4);
    lemma_be_bytes_value(v6 as nat, 16);
    assert(be_bytes(v4 as nat, 4).subrange(0, 4) =~= be_bytes(v4 as nat, 4));
    assert(be_bytes(v6 as nat, 16).subrange(0, 16) =~= be_bytes(v6 as nat, 16));
    lemma_pow256_values();
    lemma_small_mod(v4 as nat, pow256(4));
    lemma_small_mod(v6 as nat, pow256(16));
}

/// An MPLS stack entry written as its 24 bits (label, experimental bits,
/// bottom-of-stack bit) is read back unchanged by the MPLS formatter.
pub proof fn law_mpls_round_trip(label: u32, exp: u8, bottom: u8)
    requires
        label < 0x10_0000,
        exp < 8,
        bottom < 2,
    ensures
        mpls_model(be_bytes((label * 16 + exp * 2 + bottom) as nat, 3)) == ValueModel::MPLS(
            label,
            exp,
            bottom,
        ),
{
    reveal_with_fuel(pow256, 4);
    let v = (label * 16 + exp * 2 + bottom) as nat;
    lemma_be_bytes_value(v, 3);
    assert(be_bytes(v, 3).subrange(0, 3) =~= be_bytes(v, 3));
    assert(v < 0x100_0000);
    lemma_pow256_values();
    lemma_small_mod(v, pow256(3));
    lemma_fundamental_div_mod_converse(v as int, 16, label as int, (exp * 2 + bottom) as int);
    lemma_fundamental_div_mod_converse(v as int, 2, (label * 8 + exp) as int, bottom as int);
    lemma_fundamental_div_mod_converse((label * 8 + exp) as int, 8, label as int, exp as int);
}

/// Processing the sets `a` and then the sets `b` leaves the registry as
/// processing `a + b` at once does: the registry after the first `i` sets
/// of a message is the registry that processing stands at after set `i`.
pub proof fn law_process_sets_split(
    st: StateModel,
    a: Seq<(SetHeader, Seq<u8>)>,
    b: Seq<(SetHeader, Seq<u8>)>,
)
    ensures
        process_sets(st, a + b) == process_sets(process_sets(st, a), b),
    decreases b.len(),
{
    if b.len() == 0 {
        assert(a + b =~= a);
    } else {
        assert((a + b).drop_last() =~= a + b.drop_last());
        law_process_sets_split(st, a, b.drop_last());
    }
}

/// What the first `i` sets of a message decode to does not depend on the
/// sets after them.
pub proof fn law_decoded_sets_prefix(
    st: StateModel,
    sets: Seq<(SetHeader, Seq<u8>)>,
    i: int,
    fmts: Map<u32, Map<u16, (&'static str, FieldDecoder)>>,
)
    requires
        0 <= i <= sets.len(),
    ensures
        decoded_sets(st, sets.subrange(0, i), fmts) == decoded_sets(st, sets, fmts).subrange(0, i),
    decreases sets.len(),
{
    if i == sets.len() {
        assert(sets.subrange(0, i) =~= sets);
        assert(decoded_sets(st, sets, fmts).subrange(0, i) =~= decoded_sets(st, sets, fmts)) by {
            lemma_decoded_sets_len(st, sets, fmts);
        }
    } else {
        assert(sets.drop_last().subrange(0, i) =~= sets.subrange(0, i));
        law_decoded_sets_prefix(st, sets.drop_last(), i, fmts);
        lemma_decoded_sets_len(st, sets.drop_last(), fmts);
        assert(decoded_sets(st, sets, fmts).subrange(0, i) =~= decoded_sets(
            st,
            sets.drop_last(),
            fmts,
        ).subrange(0, i));
    }
}

/// There is one decoded set per set.
pub proof fn lemma_decoded_sets_len(
    st: StateModel,
    sets: Seq<(SetHeader, Seq<u8>)>,
    fmts: Map<u32, Map<u16, (&'static str, FieldDecoder)>>,
)
    ensures
        decoded_sets(st, sets, fmts).len() == sets.len(),
    decreases sets.len(),
{
    if sets.len() > 0 {
        lemma_decoded_sets_len(st, sets.drop_last(), fmts);
    }
}

/// Data sets leave the registry alone, so a message of data sets and a
/// message of template sets leave the same registry in either order.
pub proof fn law_data_sets_commute(
    st: StateModel,
    templates: Seq<(SetHeader, Seq<u8>)>,
    data: Seq<(SetHeader, Seq<u8>)>,
)
    requires
        forall|k: int| 0 <= k < data.len() ==> set_type_of(#[trigger] data[k].0.set_id) == SetType::DataSet,
    ensures
        process_sets(process_sets(st, templates), data) == process_sets(st, templates),
        process_sets(process_sets(st, data), templates) == process_sets(st, templates),
{
    lemma_data_sets_keep(process_sets(st, templates), data);
    lemma_data_sets_keep(st, data);
}

/// Data sets leave the registry as it was.
proof fn lemma_data_sets_keep(st: StateModel, data: Seq<(SetHeader, Seq<u8>)>)
    requires
        forall|k: int| 0 <= k < data.len() ==> set_type_of(#[trigger] data[k].0.set_id) == SetType::DataSet,
    ensures
        process_sets(st, data) == st,
    decreases data.len(),
{
    if data.len() > 0 {
        assert(set_type_of(data[data.len() - 1].0.set_id) == SetType::DataSet);
        lemma_data_sets_keep(st, data.drop_last());
    }
}

/// Storing two templates under one id keeps the second: it replaces the
/// first, and a lookup finds the second.
pub proof fn law_template_replaced(st: StateModel, first: TemplateModel, second: TemplateModel)
    requires
        first.header.template_id == second.header.template_id,
    ensures
        st.with_templates(seq![first, second]).templates == st.templates.insert(
            second.header.template_id,
            second,
        ),
        st.with_templates(seq![first, second]).templates[second.header.template_id] == second,
        st.with_templates(seq![first, second]).options_templates == st.options_templates,
{
    let id = second.header.template_id;
    let ts = seq![first, second];
    assert(ts.drop_last() =~= seq![first]);
    assert(seq![first].drop_last() =~= Seq::<TemplateModel>::empty());
    assert(st.with_templates(Seq::<TemplateModel>::empty()) == st);
    let s1 = st.with_templates(seq![first]);
    assert(s1.templates == st.templates.insert(id, first));
    assert(s1.options_templates == st.options_templates);
    assert(st.with_templates(ts).templates == s1.templates.insert(id, second));
    assert(st.with_templates(ts).templates =~= st.templates.insert(id, second));
}

/// A formatter registered for (enterprise number, field id) decides the key
/// and value of that field, whatever was registered there before, built-in
/// formatters included.
pub proof fn law_custom_formatter_wins(
    fmts: Map<u32, Map<u16, (&'static str, FieldDecoder)>>,
    pen: u32,
    id: u16,
    name: &'static str,
    decoder: FieldDecoder,
    bytes: Seq<u8>,
)
    ensures
        enrich(
            fmts.insert(
                pen,
                (if fmts.contains_key(pen) {
                    fmts[pen]
                } else {
                    Map::empty()
                }).insert(id, (name, decoder)),
            ),
            id,
            bytes,
            pen,
        ) == (KeyModel::Str(name@), decoder.model(bytes)),
{
}

/// The total width of fields that all have a fixed length.
pub open spec fn fixed_width(takes: Seq<(u16, u16, u32)>) -> nat
    decreases takes.len(),
{
    if takes.len() == 0 {
        0
    } else {
        (fixed_width(takes.drop_last()) + takes.last().1) as nat
    }
}

/// Whether no field of `takes` is of variable length.
pub open spec fn all_fixed(takes: Seq<(u16, u16, u32)>) -> bool {
    forall|k: int| 0 <= k < takes.len() ==> (#[trigger] takes[k]).1 != 65535
}

/// Under fixed-length fields a record can be cut exactly when the input
/// holds the fields' total width, and it then takes exactly that width.
pub proof fn law_fixed_record_width(b: Seq<u8>, takes: Seq<(u16, u16, u32)>)
    requires
        all_fixed(takes),
    ensures
        fields_at(b, takes) is Some <==> b.len() >= fixed_width(takes),
        fields_at(b, takes) matches Some((_, n)) ==> n == fixed_width(takes),
    decreases takes.len(),
{
    if takes.len() > 0 {
        assert(all_fixed(takes.drop_last())) by {
            assert forall|k: int| 0 <= k < takes.drop_last().len() implies (
            #[trigger] takes.drop_last()[k]).1 != 65535 by {
                assert(takes.drop_last()[k] == takes[k]);
            }
        }
        assert(takes[takes.len() - 1].1 != 65535);
        law_fixed_record_width(b, takes.drop_last());
    }
}

/// Under fixed-length fields of total width `W > 0`, a data set body of
/// `L` bytes yields `L / W` records.
pub proof fn law_fixed_record_count(
    b: Seq<u8>,
    takes: Seq<(u16, u16, u32)>,
    fmts: Map<u32, Map<u16, (&'static str, FieldDecoder)>>,
)
    requires
        all_fixed(takes),
        fixed_width(takes) > 0,
    ensures
        records_of(b, takes, fmts).len() == b.len() / fixed_width(takes),
    decreases b.len(),
{
    let w = fixed_width(takes) as int;
    law_fixed_record_width(b, takes);
    if b.len() == 0 {
    } else if b.len() < w {
        lemma_fundamental_div_mod_converse(b.len() as int, w, 0, b.len() as int);
    } else {
        let rest = b.subrange(w, b.len() as int);
        law_fixed_record_count(rest, takes, fmts);
        let x = rest.len() as int;
        lemma_fundamental_div_mod(x, w);
        lemma_mod_pos_bound(x, w);
        assert(b.len() == (x / w + 1) * w + x % w) by (nonlinear_arith)
            requires
                x == w * (x / w) + x % w,
                b.len() == x + w,
        ;
        lemma_fundamental_div_mod_converse(b.len() as int, w, x / w + 1, x % w);
    }
}

/// Where a template's fields are all of fixed length and add up to no bytes,
/// decoding yields no records: a record that takes no bytes stops the loop.
pub proof fn law_zero_width_no_records(
    b: Seq<u8>,
    takes: Seq<(u16, u16, u32)>,
    fmts: Map<u32, Map<u16, (&'static str, FieldDecoder)>>,
)
    requires
        all_fixed(takes),
        fixed_width(takes) == 0,
    ensures
        records_of(b, takes, fmts) == Seq::<Seq<(KeyModel, ValueModel)>>::empty(),
{
    law_fixed_record_width(b, takes);
}

/// A decoded record holds each key at most once, a later field replacing an
/// earlier one with the same key.
pub proof fn law_record_keys_unique(
    vals: Seq<(u16, Seq<u8>, u32)>,
    fmts: Map<u32, Map<u16, (&'static str, FieldDecoder)>>,
)
    ensures
        keys_unique(record_of(vals, fmts)),
    decreases vals.len(),
{
    if vals.len() > 0 {
        law_record_keys_unique(vals.drop_last(), fmts);
        let (id, bytes, pen) = vals.last();
        let (k, v) = enrich(fmts, id, bytes, pen);
        lemma_upsert_keeps_unique(record_of(vals.drop_last(), fmts), k, v);
    }
}

} // verus!
