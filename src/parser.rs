use crate::formatter::{
    be_value, default_formats, formats_view, get_default_parsers, lemma_be_value_bound, pow256,
    read_be, EnterpriseFormatter, FieldDecoder, FieldFormatter,
};
use crate::fxmap::{fx_get, fx_insert, fx_remove};
use rustc_hash::FxHashMap;
use crate::state::{State, StateModel};
use vstd::prelude::*;
use vstd::slice::slice_subrange;

verus! {

/// What a decoded field value stands for, with strings and byte slices
/// replaced by their sequences.
pub enum ValueModel {
    IPv4(u32),
    IPv6(u128),
    U8(u8),
    U16(u16),
    U32(u32),
    U64(u64),
    String(Seq<char>),
    Bytes(Seq<u8>),
    MPLS(u32, u8, u8),
    Error(Seq<char>, Seq<u8>),
    Empty,
}

/// A typed field value. Addresses are held as their big-endian numbers;
/// `Bytes` and the bytes of `Error` borrow from the decoded input.
#[derive(PartialEq, Debug, Clone)]
pub enum DataRecordValue<'a> {
    IPv4(u32),
    IPv6(u128),
    U8(u8),
    U16(u16),
    U32(u32),
    U64(u64),
    String(String),
    Bytes(&'a [u8]),
    MPLS(u32, u8, u8),
    Error(String, &'a [u8]),
    Empty,
}

impl<'a> View for DataRecordValue<'a> {
    type V = ValueModel;

    open spec fn view(&self) -> ValueModel {
        match self {
            DataRecordValue::IPv4(a) => ValueModel::IPv4(*a),
            DataRecordValue::IPv6(a) => ValueModel::IPv6(*a),
            DataRecordValue::U8(n) => ValueModel::U8(*n),
            DataRecordValue::U16(n) => ValueModel::U16(*n),
            DataRecordValue::U32(n) => ValueModel::U32(*n),
            DataRecordValue::U64(n) => ValueModel::U64(*n),
            DataRecordValue::String(s) => ValueModel::String(s@),
            DataRecordValue::Bytes(b) => ValueModel::Bytes(b@),
            DataRecordValue::MPLS(l, e, s) => ValueModel::MPLS(*l, *e, *s),
            DataRecordValue::Error(m, b) => ValueModel::Error(m@, b@),
            DataRecordValue::Empty => ValueModel::Empty,
        }
    }
}

/// The 16-bit big-endian number at offset `i` of `b`.
pub open spec fn be16(b: Seq<u8>, i: int) -> u16 {
    be_value(b.subrange(i, i + 2)) as u16
}

/// The 32-bit big-endian number at offset `i` of `b`.
pub open spec fn be32(b: Seq<u8>, i: int) -> u32 {
    be_value(b.subrange(i, i + 4)) as u32
}

/// Reads the 16-bit big-endian number at offset `i`.
fn read_u16_at(s: &[u8], i: usize) -> (r: u16)
    requires
        i + 2 <= s@.len(),
    ensures
        r == be16(s@, i as int),
{
    let n = s.len();
    let v = read_be(slice_subrange(s, i, i + 2));
    proof {
        lemma_be_value_bound(s@.subrange(i as int, i + 2));
        reveal_with_fuel(pow256, 3);
    }
    v as u16
}

/// Reads the 32-bit big-endian number at offset `i`.
fn read_u32_at(s: &[u8], i: usize) -> (r: u32)
    requires
        i + 4 <= s@.len(),
    ensures
        r == be32(s@, i as int),
{
    let n = s.len();
    let v = read_be(slice_subrange(s, i, i + 4));
    proof {
        lemma_be_value_bound(s@.subrange(i as int, i + 4));
        reveal_with_fuel(pow256, 5);
    }
    v as u32
}

/// Why a message, or a part of one, could not be decoded.
#[derive(Clone, Copy, PartialEq, Eq, Debug, Structural)]
pub enum ParseError {
    /// The 16-byte message header is missing or its version is not 10.
    BadHeader,
    /// A set header declares a length under 4 or beyond the input.
    TruncatedSet,
    /// A data set refers to a template id that the registry does not hold.
    UnknownTemplate,
}

/// The kind of a set, given by its set id.
#[derive(Clone, Copy, PartialEq, Eq, Debug, Structural)]
pub enum SetType {
    DataSet,
    Template,
    OptionTemplate,
}

/// The kind of set that the set id `set_id` announces.
pub open spec fn set_type_of(set_id: u16) -> SetType {
    if set_id == 2 {
        SetType::Template
    } else if set_id == 3 {
        SetType::OptionTemplate
    } else {
        SetType::DataSet
    }
}

impl SetType {
    /// The kind of set that `set_id` announces: 2 a template set, 3 an
    /// options template set, any other id a data set.
    pub fn from(set_id: u16) -> (r: SetType)
        ensures
            r == set_type_of(set_id),
    {
        match set_id {
            2 => SetType::Template,
            3 => SetType::OptionTemplate,
            _ => SetType::DataSet,
        }
    }
}

/// The 4-byte header of a set.
#[derive(Clone, Copy, PartialEq, Eq, Debug, Structural)]
pub struct SetHeader {
    /// 2: template set, 3: options template set, 256 and up: data set
    pub set_id: u16,
    pub length: u16,
}

/// The 4-byte header of a template.
#[derive(Clone, Copy, PartialEq, Eq, Debug, Structural)]
pub struct TemplateHeader {
    pub template_id: u16,
    pub field_count: u16,
}

/// The 6-byte header of an options template.
#[derive(Clone, Copy, PartialEq, Eq, Debug, Structural)]
pub struct OptionsTemplateHeader {
    pub id: u16,
    pub field_count: u16,
    pub scope_field_count: u16,
}

/// One field of a template: its information element, its length on the
/// wire, and the enterprise number of an enterprise-specific element.
#[derive(Clone, Copy, PartialEq, Eq, Debug, Structural)]
pub struct FieldSpecifier {
    /// the element id word as sent, enterprise bit included
    pub temp_ident: u16,
    /// the element id, enterprise bit cleared
    pub ident: u16,
    /// the length in bytes; 65535 announces a variable-length field
    pub field_length: u16,
    pub enterprise_number: Option<u32>,
    pub is_variable: bool,
    pub is_pen: bool,
}

/// A template: an id and the ordered fields of the records it describes.
#[derive(Clone, Debug)]
pub struct Template {
    pub header: TemplateHeader,
    pub field_specifiers: Vec<FieldSpecifier>,
}

/// An options template: structurally a template with a scope field count.
#[derive(Clone, Debug)]
pub struct OptionsTemplate {
    pub header: OptionsTemplateHeader,
    pub field_specifiers: Vec<FieldSpecifier>,
}

/// A template set with its decoded templates.
#[derive(Clone, Debug)]
pub struct TemplateSet {
    pub header: SetHeader,
    pub records: Vec<Template>,
}

/// An options template set with its decoded options templates.
#[derive(Clone, Debug)]
pub struct OptionsTemplateSet {
    pub header: SetHeader,
    pub records: Vec<OptionsTemplate>,
}

/// A template, with its fields as a sequence.
pub struct TemplateModel {
    pub header: TemplateHeader,
    pub fields: Seq<FieldSpecifier>,
}

/// An options template, with its fields as a sequence.
pub struct OptionsTemplateModel {
    pub header: OptionsTemplateHeader,
    pub fields: Seq<FieldSpecifier>,
}

impl View for Template {
    type V = TemplateModel;

    open spec fn view(&self) -> TemplateModel {
        TemplateModel { header: self.header, fields: self.field_specifiers@ }
    }
}

impl View for OptionsTemplate {
    type V = OptionsTemplateModel;

    open spec fn view(&self) -> OptionsTemplateModel {
        OptionsTemplateModel { header: self.header, fields: self.field_specifiers@ }
    }
}

/// The field specifier at the start of `b`, and the bytes it takes: 8 where
/// the enterprise bit of the id word is set, else 4.
pub open spec fn field_specifier_at(b: Seq<u8>) -> Option<(FieldSpecifier, int)> {
    if b.len() < 4 {
        None
    } else {
        let raw = be16(b, 0);
        let len = be16(b, 2);
        if raw >= 0x8000 {
            if b.len() < 8 {
                None
            } else {
                Some(
                    (
                        FieldSpecifier {
                            temp_ident: raw,
                            ident: (raw - 0x8000) as u16,
                            field_length: len,
                            enterprise_number: Some(be32(b, 4)),
                            is_variable: len == 65535,
                            is_pen: true,
                        },
                        8,
                    ),
                )
            }
        } else {
            Some(
                (
                    FieldSpecifier {
                        temp_ident: raw,
                        ident: raw,
                        field_length: len,
                        enterprise_number: None,
                        is_variable: len == 65535,
                        is_pen: false,
                    },
                    4,
                ),
            )
        }
    }
}

/// `count` field specifiers in a row at the start of `b`, and the bytes
/// they take.
pub open spec fn field_specifiers_at(b: Seq<u8>, count: nat) -> Option<(Seq<FieldSpecifier>, int)>
    decreases count,
{
    if count == 0 {
        Some((seq![], 0))
    } else {
        match field_specifiers_at(b, (count - 1) as nat) {
            None => None,
            Some((fs, n)) => match field_specifier_at(b.subrange(n, b.len() as int)) {
                None => None,
                Some((f, m)) => Some((fs.push(f), n + m)),
            },
        }
    }
}

/// The bytes that `count` field specifiers take lie within `b`.
proof fn lemma_field_specifiers_within(b: Seq<u8>, count: nat)
    ensures
        field_specifiers_at(b, count) matches Some((fs, n)) ==> 4 * count <= n <= b.len() && fs.len()
            == count,
    decreases count,
{
    if count > 0 {
        lemma_field_specifiers_within(b, (count - 1) as nat);
    }
}

impl FieldSpecifier {
    /// The derived parts agree with the id word and the length: the id is
    /// the word without its enterprise bit, an enterprise number is present
    /// exactly when that bit is set, and 65535 marks a variable length.
    pub open spec fn wf(self) -> bool {
        &&& self.ident == self.temp_ident % 0x8000
        &&& self.is_pen == (self.temp_ident >= 0x8000)
        &&& self.is_pen == self.enterprise_number is Some
        &&& self.is_variable == (self.field_length == 65535)
    }

    /// Decodes the field specifier at the start of `input`; gives it and the
    /// bytes it took.
    pub fn parse(input: &[u8]) -> (r: Option<(FieldSpecifier, usize)>)
        ensures
            r matches Some((f, n)) ==> field_specifier_at(input@) == Some((f, n as int)) && f.wf(),
            r is None ==> field_specifier_at(input@) is None,
    {
        if input.len() < 4 {
            return None;
        }
        let raw = read_u16_at(input, 0);
        let len = read_u16_at(input, 2);
        if raw >= 0x8000 {
            if input.len() < 8 {
                return None;
            }
            let pen = read_u32_at(input, 4);
            Some(
                (
                    FieldSpecifier {
                        temp_ident: raw,
                        ident: raw - 0x8000,
                        field_length: len,
                        enterprise_number: Some(pen),
                        is_variable: len == 65535,
                        is_pen: true,
                    },
                    8,
                ),
            )
        } else {
            Some(
                (
                    FieldSpecifier {
                        temp_ident: raw,
                        ident: raw,
                        field_length: len,
                        enterprise_number: None,
                        is_variable: len == 65535,
                        is_pen: false,
                    },
                    4,
                ),
            )
        }
    }
}

/// Decodes `count` field specifiers in a row at the start of `input`.
fn parse_field_specifiers(input: &[u8], count: u16) -> (r: Option<(Vec<FieldSpecifier>, usize)>)
    ensures
        r matches Some((fs, n)) ==> field_specifiers_at(input@, count as nat) == Some(
            (fs@, n as int),
        ),
        r is None ==> field_specifiers_at(input@, count as nat) is None,
{
    let mut fs: Vec<FieldSpecifier> = Vec::new();
    let mut pos: usize = 0;
    let mut k: u16 = 0;
    while k < count
        invariant
            k <= count,
            pos <= input@.len(),
            field_specifiers_at(input@, k as nat) == Some((fs@, pos as int)),
        decreases count - k,
    {
        let rest = slice_subrange(input, pos, input.len());
        match FieldSpecifier::parse(rest) {
            None => {
                assert(field_specifiers_at(input@, (k + 1) as nat) is None);
                proof {
                    lemma_none_stays_none(input@, (k + 1) as nat, count as nat);
                }
                return None;
            },
            Some((f, m)) => {
                fs.push(f);
                pos = pos + m;
                k = k + 1;
            },
        }
    }
    Some((fs, pos))
}

/// Once a run of field specifiers fails, every longer run fails.
proof fn lemma_none_stays_none(b: Seq<u8>, k: nat, count: nat)
    requires
        k <= count,
        field_specifiers_at(b, k) is None,
    ensures
        field_specifiers_at(b, count) is None,
    decreases count - k,
{
    if k < count {
        lemma_none_stays_none(b, k + 1, count);
    }
}

/// The template at the start of `b`, and the bytes it takes.
pub open spec fn template_at(b: Seq<u8>) -> Option<(TemplateModel, int)> {
    if b.len() < 4 {
        None
    } else {
        let cnt = be16(b, 2);
        match field_specifiers_at(b.subrange(4, b.len() as int), cnt as nat) {
            None => None,
            Some((fs, n)) => Some((TemplateModel { header: TemplateHeader { template_id: be16(b, 0), field_count: cnt }, fields: fs }, 4 + n)),
        }
    }
}

/// The templates that a set body holds: decoded one after another until the
/// next one cannot be decoded.
pub open spec fn templates_in(b: Seq<u8>) -> Seq<TemplateModel>
    decreases b.len(),
{
    match template_at(b) {
        None => seq![],
        Some((t, n)) => if 0 < n <= b.len() {
            seq![t] + templates_in(b.subrange(n, b.len() as int))
        } else {
            seq![]
        },
    }
}

impl Template {
    /// Decodes the template at the start of `input`; gives it and the bytes it
    /// took.
    pub fn parse(input: &[u8]) -> (r: Option<(Template, usize)>)
        ensures
            r matches Some((t, n)) ==> template_at(input@) == Some((t@, n as int)) && 4 <= n
                <= input@.len(),
            r is None ==> template_at(input@) is None,
    {
        if input.len() < 4 {
            return None;
        }
        let id = read_u16_at(input, 0);
        let cnt = read_u16_at(input, 2);
        let header = TemplateHeader { template_id: id, field_count: cnt };
        match parse_field_specifiers(slice_subrange(input, 4, input.len()), cnt) {
            None => None,
            Some((fs, n)) => {
                proof {
                    lemma_field_specifiers_within(input@.subrange(4, input@.len() as int), cnt as nat);
                }
                Some((Template { header, field_specifiers: fs }, 4 + n))
            },
        }
    }

    /// Decodes templates one after another from `input` until the next one
    /// cannot be decoded.
    pub fn parse_many(input: &[u8]) -> (r: Vec<Template>)
        ensures
            r@.map_values(|t: Template| t@) == templates_in(input@),
    {
        let mut out: Vec<Template> = Vec::new();
        let mut pos: usize = 0;
        let n = input.len();
        assert(input@.subrange(0, n as int) =~= input@);
        assert(out@.map_values(|t: Template| t@) + templates_in(input@) =~= templates_in(input@));
        while pos < n
            invariant
                n == input@.len(),
                pos <= n,
                templates_in(input@) == out@.map_values(|t: Template| t@) + templates_in(
                    input@.subrange(pos as int, n as int),
                ),
            decreases n - pos,
        {
            let rest = slice_subrange(input, pos, n);
            match Template::parse(rest) {
                None => {
                    assert(templates_in(rest@) == Seq::<TemplateModel>::empty());
                    assert(out@.map_values(|t: Template| t@) + Seq::<TemplateModel>::empty() =~= out@.map_values(
                        |t: Template| t@,
                    ));
                    return out;
                },
                Some((t, m)) => {
                    let ghost before = out@;
                    assert(rest@.subrange(m as int, rest@.len() as int) =~= input@.subrange(
                        pos + m,
                        n as int,
                    ));
                    out.push(t);
                    assert(out@.map_values(|t: Template| t@) =~= before.map_values(|t: Template| t@)
                        + seq![t@]);
                    pos = pos + m;
                },
            }
        }
        assert(templates_in(input@.subrange(pos as int, n as int)) == Seq::<TemplateModel>::empty());
        assert(out@.map_values(|t: Template| t@) + Seq::<TemplateModel>::empty() =~= out@.map_values(
            |t: Template| t@,
        ));
        out
    }
}

/// The options template at the start of `b`, and the bytes it takes.
pub open spec fn options_template_at(b: Seq<u8>) -> Option<(OptionsTemplateModel, int)> {
    if b.len() < 6 {
        None
    } else {
        let cnt = be16(b, 2);
        match field_specifiers_at(b.subrange(6, b.len() as int), cnt as nat) {
            None => None,
            Some((fs, n)) => Some((OptionsTemplateModel { header: OptionsTemplateHeader { id: be16(b, 0), field_count: cnt, scope_field_count: be16(b, 4) }, fields: fs }, 6 + n)),
        }
    }
}

/// The options templates that a set body holds: decoded one after another until the
/// next one cannot be decoded.
pub open spec fn options_templates_in(b: Seq<u8>) -> Seq<OptionsTemplateModel>
    decreases b.len(),
{
    match options_template_at(b) {
        None => seq![],
        Some((t, n)) => if 0 < n <= b.len() {
            seq![t] + options_templates_in(b.subrange(n, b.len() as int))
        } else {
            seq![]
        },
    }
}

impl OptionsTemplate {
    /// Decodes the options template at the start of `input`; gives it and the bytes it
    /// took.
    pub fn parse(input: &[u8]) -> (r: Option<(OptionsTemplate, usize)>)
        ensures
            r matches Some((t, n)) ==> options_template_at(input@) == Some((t@, n as int)) && 6 <= n
                <= input@.len(),
            r is None ==> options_template_at(input@) is None,
    {
        if input.len() < 6 {
            return None;
        }
        let id = read_u16_at(input, 0);
        let cnt = read_u16_at(input, 2);
        let scope = read_u16_at(input, 4);
        let header = OptionsTemplateHeader { id, field_count: cnt, scope_field_count: scope };
        match parse_field_specifiers(slice_subrange(input, 6, input.len()), cnt) {
            None => None,
            Some((fs, n)) => {
                proof {
                    lemma_field_specifiers_within(input@.subrange(6, input@.len() as int), cnt as nat);
                }
                Some((OptionsTemplate { header, field_specifiers: fs }, 6 + n))
            },
        }
    }

    /// Decodes options templates one after another from `input` until the next one
    /// cannot be decoded.
    pub fn parse_many(input: &[u8]) -> (r: Vec<OptionsTemplate>)
        ensures
            r@.map_values(|t: OptionsTemplate| t@) == options_templates_in(input@),
    {
        let mut out: Vec<OptionsTemplate> = Vec::new();
        let mut pos: usize = 0;
        let n = input.len();
        assert(input@.subrange(0, n as int) =~= input@);
        assert(out@.map_values(|t: OptionsTemplate| t@) + options_templates_in(input@) =~= options_templates_in(input@));
        while pos < n
            invariant
                n == input@.len(),
                pos <= n,
                options_templates_in(input@) == out@.map_values(|t: OptionsTemplate| t@) + options_templates_in(
                    input@.subrange(pos as int, n as int),
                ),
            decreases n - pos,
        {
            let rest = slice_subrange(input, pos, n);
            match OptionsTemplate::parse(rest) {
                None => {
                    assert(options_templates_in(rest@) == Seq::<OptionsTemplateModel>::empty());
                    assert(out@.map_values(|t: OptionsTemplate| t@) + Seq::<OptionsTemplateModel>::empty() =~= out@.map_values(
                        |t: OptionsTemplate| t@,
                    ));
                    return out;
                },
                Some((t, m)) => {
                    let ghost before = out@;
                    assert(rest@.subrange(m as int, rest@.len() as int) =~= input@.subrange(
                        pos + m,
                        n as int,
                    ));
                    out.push(t);
                    assert(out@.map_values(|t: OptionsTemplate| t@) =~= before.map_values(|t: OptionsTemplate| t@)
                        + seq![t@]);
                    pos = pos + m;
                },
            }
        }
        assert(options_templates_in(input@.subrange(pos as int, n as int)) == Seq::<OptionsTemplateModel>::empty());
        assert(out@.map_values(|t: OptionsTemplate| t@) + Seq::<OptionsTemplateModel>::empty() =~= out@.map_values(
            |t: OptionsTemplate| t@,
        ));
        out
    }
}

/// What a record key stands for, with strings replaced by their characters.
pub enum KeyModel {
    Str(Seq<char>),
    Unrecognized(u16),
    Error(Seq<char>),
}

/// The key of a field in a decoded record: the formatter's name, the bare
/// field id where no formatter is registered, or a message where the
/// enterprise number is unknown.
#[derive(PartialEq, Eq, Hash, Debug, Clone)]
pub enum DataRecordKey {
    Str(String),
    Unrecognized(u16),
    Error(String),
}

impl View for DataRecordKey {
    type V = KeyModel;

    open spec fn view(&self) -> KeyModel {
        match self {
            DataRecordKey::Str(s) => KeyModel::Str(s@),
            DataRecordKey::Unrecognized(id) => KeyModel::Unrecognized(*id),
            DataRecordKey::Error(s) => KeyModel::Error(s@),
        }
    }
}

/// Whether two keys stand for the same key.
pub fn same_key(a: &DataRecordKey, b: &DataRecordKey) -> (r: bool)
    ensures
        r == (a@ == b@),
{
    match (a, b) {
        (DataRecordKey::Str(x), DataRecordKey::Str(y)) => x.eq(y),
        (DataRecordKey::Unrecognized(x), DataRecordKey::Unrecognized(y)) => *x == *y,
        (DataRecordKey::Error(x), DataRecordKey::Error(y)) => x.eq(y),
        _ => false,
    }
}

/// The decimal digit `d`.
pub open spec fn digit_char(d: nat) -> char {
    seq!['0', '1', '2', '3', '4', '5', '6', '7', '8', '9'][d as int]
}

/// The decimal notation of `n`.
pub open spec fn decimal(n: nat) -> Seq<char>
    decreases n,
{
    if n < 10 {
        seq![digit_char(n)]
    } else {
        decimal(n / 10) + seq![digit_char(n % 10)]
    }
}

/// The key text of a field whose enterprise number has no formatters.
pub open spec fn unsupported_pen_text(pen: u32, field_id: u16) -> Seq<char> {
    "unsupported pen "@ + decimal(pen as nat) + " when trying to parse field "@ + decimal(
        field_id as nat,
    )
}

/// Relies on `format!`, which writes integers in decimal digits.
#[verifier::external_body]
fn unsupported_pen_message(pen: u32, field_id: u16) -> (r: String)
    ensures
        r@ == unsupported_pen_text(pen, field_id),
{
    format!("unsupported pen {} when trying to parse field {}", pen, field_id)
}

/// The key and value that the registry `fmts` gives to field `id` of
/// enterprise number `pen`, holding `bytes`.
pub open spec fn enrich(
    fmts: Map<u32, Map<u16, (&'static str, FieldDecoder)>>,
    id: u16,
    bytes: Seq<u8>,
    pen: u32,
) -> (KeyModel, ValueModel) {
    if !fmts.contains_key(pen) {
        (KeyModel::Error(unsupported_pen_text(pen, id)), ValueModel::Empty)
    } else if !fmts[pen].contains_key(id) {
        (KeyModel::Unrecognized(id), ValueModel::Bytes(bytes))
    } else {
        (KeyModel::Str(fmts[pen][id].0@), fmts[pen][id].1.model(bytes))
    }
}

/// The last position of key `k` among the entries `s`, or -1.
pub open spec fn key_index(s: Seq<(KeyModel, ValueModel)>, k: KeyModel) -> int
    decreases s.len(),
{
    if s.len() == 0 {
        -1
    } else if s.last().0 == k {
        s.len() - 1
    } else {
        key_index(s.drop_last(), k)
    }
}

/// The entries `s` with `k` set to `v`: in place where `k` is present, else
/// appended.
pub open spec fn upsert(s: Seq<(KeyModel, ValueModel)>, k: KeyModel, v: ValueModel) -> Seq<
    (KeyModel, ValueModel),
> {
    let i = key_index(s, k);
    if i < 0 {
        s.push((k, v))
    } else {
        s.update(i, (k, v))
    }
}

/// The record that the fields `vals` (id, bytes, enterprise number) make,
/// a later field replacing an earlier one with the same key.
pub open spec fn record_of(
    vals: Seq<(u16, Seq<u8>, u32)>,
    fmts: Map<u32, Map<u16, (&'static str, FieldDecoder)>>,
) -> Seq<(KeyModel, ValueModel)>
    decreases vals.len(),
{
    if vals.len() == 0 {
        seq![]
    } else {
        let (id, bytes, pen) = vals.last();
        let (k, v) = enrich(fmts, id, bytes, pen);
        upsert(record_of(vals.drop_last(), fmts), k, v)
    }
}

/// Whether no key occurs twice among the entries `s`.
pub open spec fn keys_unique(s: Seq<(KeyModel, ValueModel)>) -> bool {
    forall|i: int, j: int| 0 <= i < j < s.len() ==> (#[trigger] s[i]).0 != (#[trigger] s[j]).0
}

/// `key_index` finds the key where it is present and -1 where it is not.
pub proof fn lemma_key_index(s: Seq<(KeyModel, ValueModel)>, k: KeyModel)
    ensures
        -1 <= key_index(s, k) < s.len(),
        key_index(s, k) >= 0 ==> s[key_index(s, k)].0 == k,
        key_index(s, k) == -1 ==> forall|i: int| 0 <= i < s.len() ==> (#[trigger] s[i]).0 != k,
    decreases s.len(),
{
    if s.len() > 0 {
        lemma_key_index(s.drop_last(), k);
        if s.last().0 != k {
            assert forall|i: int| 0 <= i < s.len() - 1 implies #[trigger] s[i] == s.drop_last()[i] by {}
        }
    }
}

/// Setting a key keeps the keys unique.
pub proof fn lemma_upsert_keeps_unique(s: Seq<(KeyModel, ValueModel)>, k: KeyModel, v: ValueModel)
    requires
        keys_unique(s),
    ensures
        keys_unique(upsert(s, k, v)),
{
    lemma_key_index(s, k);
}

/// One decoded record: keys and values, no key twice.
#[derive(PartialEq, Debug, Clone)]
pub struct DataRecord<'a> {
    pub values: Vec<(DataRecordKey, DataRecordValue<'a>)>,
}

impl<'a> View for DataRecord<'a> {
    type V = Seq<(KeyModel, ValueModel)>;

    open spec fn view(&self) -> Seq<(KeyModel, ValueModel)> {
        self.values@.map_values(|p: (DataRecordKey, DataRecordValue<'a>)| (p.0@, p.1@))
    }
}

impl<'a> DataRecord<'a> {
    /// Whether no key occurs twice.
    pub open spec fn wf(&self) -> bool {
        keys_unique(self@)
    }

    /// An empty record.
    pub fn new() -> (r: DataRecord<'a>)
        ensures
            r@ == Seq::<(KeyModel, ValueModel)>::empty(),
            r.wf(),
    {
        let r = DataRecord { values: Vec::new() };
        assert(r@ =~= Seq::<(KeyModel, ValueModel)>::empty());
        r
    }

    /// Sets key `k` to `v`, in place where `k` is present, else at the end.
    pub fn insert(&mut self, k: DataRecordKey, v: DataRecordValue<'a>)
        ensures
            final(self)@ == upsert(old(self)@, k@, v@),
            old(self).wf() ==> final(self).wf(),
    {
        proof {
            if old(self).wf() {
                lemma_upsert_keeps_unique(old(self)@, k@, v@);
            }
        }
        let mut i = self.values.len();
        assert(old(self)@.subrange(0, i as int) =~= old(self)@);
        while i > 0
            invariant
                i <= self.values@.len(),
                self.values@ == old(self).values@,
                key_index(self@, k@) == key_index(self@.subrange(0, i as int), k@),
            decreases i,
        {
            i = i - 1;
            let ghost pre = self@.subrange(0, i + 1);
            assert(pre.drop_last() =~= self@.subrange(0, i as int));
            if same_key(&self.values[i].0, &k) {
                let ghost kv = (k@, v@);
                self.values.set(i, (k, v));
                assert(self@ =~= old(self)@.update(i as int, kv));
                return;
            }
        }
        let ghost kv = (k@, v@);
        self.values.push((k, v));
        assert(self@ =~= old(self)@.push(kv));
    }

    /// The value under key `k`, if any.
    pub fn get(&self, k: &DataRecordKey) -> (r: Option<&DataRecordValue<'a>>)
        ensures
            key_index(self@, k@) < 0 ==> r is None,
            key_index(self@, k@) >= 0 ==> (r matches Some(v) && v@ == self@[key_index(self@, k@)].1),
    {
        let mut i = self.values.len();
        assert(self@.subrange(0, i as int) =~= self@);
        while i > 0
            invariant
                i <= self.values@.len(),
                key_index(self@, k@) == key_index(self@.subrange(0, i as int), k@),
            decreases i,
        {
            i = i - 1;
            let ghost pre = self@.subrange(0, i + 1);
            assert(pre.drop_last() =~= self@.subrange(0, i as int));
            if same_key(&self.values[i].0, k) {
                return Some(&self.values[i].1);
            }
        }
        None
    }

    /// The number of keys.
    pub fn len(&self) -> (r: usize)
        ensures
            r == self@.len(),
    {
        self.values.len()
    }
}

/// The bytes of a field of declared length `field_length` at the start of
/// `b`, and the bytes it takes. Length 65535 announces a variable-length
/// field: one length byte, or 255 followed by a 16-bit length.
pub open spec fn field_at(b: Seq<u8>, field_length: u16) -> Option<(Seq<u8>, int)> {
    if field_length == 65535 {
        if b.len() < 1 {
            None
        } else if b[0] < 255 {
            if 1 + b[0] <= b.len() {
                Some((b.subrange(1, 1 + b[0]), 1 + b[0]))
            } else {
                None
            }
        } else if b.len() < 3 {
            None
        } else {
            let l = be16(b, 1);
            if 3 + l <= b.len() {
                Some((b.subrange(3, 3 + l), 3 + l))
            } else {
                None
            }
        }
    } else if field_length <= b.len() {
        Some((b.subrange(0, field_length as int), field_length as int))
    } else {
        None
    }
}

/// The fields that `takes` (id, declared length, enterprise number) cut
/// from the start of `b`, as (id, bytes, enterprise number), and the bytes
/// they take.
pub open spec fn fields_at(b: Seq<u8>, takes: Seq<(u16, u16, u32)>) -> Option<
    (Seq<(u16, Seq<u8>, u32)>, int),
>
    decreases takes.len(),
{
    if takes.len() == 0 {
        Some((seq![], 0))
    } else {
        match fields_at(b, takes.drop_last()) {
            None => None,
            Some((vals, n)) => match field_at(b.subrange(n, b.len() as int), takes.last().1) {
                None => None,
                Some((v, m)) => Some((vals.push((takes.last().0, v, takes.last().2)), n + m)),
            },
        }
    }
}

/// The fields cut by `fields_at` lie within `b`.
pub proof fn lemma_fields_within(b: Seq<u8>, takes: Seq<(u16, u16, u32)>)
    ensures
        fields_at(b, takes) matches Some((vals, n)) ==> 0 <= n <= b.len() && vals.len()
            == takes.len(),
    decreases takes.len(),
{
    if takes.len() > 0 {
        lemma_fields_within(b, takes.drop_last());
    }
}

/// The enterprise number of a field specifier, 0 for an IANA element.
pub open spec fn pen_of(f: FieldSpecifier) -> u32 {
    match f.enterprise_number {
        Some(p) => p,
        None => 0,
    }
}

/// What a template's fields ask to cut from a record: (id, declared
/// length, enterprise number) of each.
pub open spec fn takes_of(fs: Seq<FieldSpecifier>) -> Seq<(u16, u16, u32)> {
    fs.map_values(|f: FieldSpecifier| (f.ident, f.field_length, pen_of(f)))
}

/// The records that a data set body `b` holds under a template whose fields
/// ask for `takes`: records are cut one after another until the body is
/// used up, a record cannot be cut whole, or a record takes no bytes.
pub open spec fn records_of(
    b: Seq<u8>,
    takes: Seq<(u16, u16, u32)>,
    fmts: Map<u32, Map<u16, (&'static str, FieldDecoder)>>,
) -> Seq<Seq<(KeyModel, ValueModel)>>
    decreases b.len(),
{
    if b.len() == 0 {
        seq![]
    } else {
        match fields_at(b, takes) {
            None => seq![],
            Some((vals, n)) => if 0 < n <= b.len() {
                seq![record_of(vals, fmts)] + records_of(b.subrange(n, b.len() as int), takes, fmts)
            } else {
                seq![]
            },
        }
    }
}

/// The view of cut fields: (id, bytes, enterprise number).
pub open spec fn raw_fields_view<'a>(v: Seq<(u16, &'a [u8], u32)>) -> Seq<(u16, Seq<u8>, u32)> {
    v.map_values(|x: (u16, &'a [u8], u32)| (x.0, x.1@, x.2))
}

/// What a data set stands for: its header and its records.
pub struct DataSetModel {
    pub header: SetHeader,
    pub records: Seq<Seq<(KeyModel, ValueModel)>>,
}

/// A decoded data set.
#[derive(Debug, Clone)]
pub struct DataSet<'a> {
    pub header: SetHeader,
    pub records: Vec<DataRecord<'a>>,
}

impl<'a> View for DataSet<'a> {
    type V = DataSetModel;

    open spec fn view(&self) -> DataSetModel {
        DataSetModel {
            header: self.header,
            records: self.records@.map_values(|r: DataRecord<'a>| r@),
        }
    }
}

/// What to cut for each field of `fs`: (id, declared length, enterprise
/// number).
pub fn takes_of_fields(fs: &Vec<FieldSpecifier>) -> (r: Vec<(u16, u16, u32)>)
    ensures
        r@ == takes_of(fs@),
{
    let mut r: Vec<(u16, u16, u32)> = Vec::new();
    let mut i: usize = 0;
    while i < fs.len()
        invariant
            i <= fs@.len(),
            r@ == takes_of(fs@.subrange(0, i as int)),
        decreases fs@.len() - i,
    {
        let f = fs[i];
        let pen = match f.enterprise_number {
            Some(p) => p,
            None => 0,
        };
        r.push((f.ident, f.field_length, pen));
        i = i + 1;
        assert(r@ =~= takes_of(fs@.subrange(0, i as int)));
    }
    assert(fs@.subrange(0, i as int) =~= fs@);
    r
}

impl<'a> DataSet<'a> {
    /// The key and value that the registry `fmts` gives to field `id` of
    /// enterprise number `pen`, holding `bytes`.
    fn enrich_field(fmts: &EnterpriseFormatter, id: u16, bytes: &'a [u8], pen: u32) -> (r: (
        DataRecordKey,
        DataRecordValue<'a>,
    ))
        ensures
            (r.0@, r.1@) == enrich(formats_view(fmts), id, bytes@, pen),
    {
        match fx_get(fmts, &pen) {
            None => (DataRecordKey::Error(unsupported_pen_message(pen, id)), DataRecordValue::Empty),
            Some(inner) => match fx_get(inner, &id) {
                None => (DataRecordKey::Unrecognized(id), DataRecordValue::Bytes(bytes)),
                Some(entry) => {
                    let (name, decoder) = *entry;
                    (DataRecordKey::Str(name.to_owned()), decoder.decode(bytes))
                },
            },
        }
    }

    /// Turns cut fields (id, bytes, enterprise number) into a record through
    /// the registry `fmts`.
    pub fn enrich_fields(values: &Vec<(u16, &'a [u8], u32)>, fmts: &EnterpriseFormatter) -> (r:
        DataRecord<'a>)
        ensures
            r@ == record_of(raw_fields_view(values@), formats_view(fmts)),
            r.wf(),
    {
        let mut rec = DataRecord::new();
        let mut i: usize = 0;
        while i < values.len()
            invariant
                i <= values@.len(),
                rec@ == record_of(raw_fields_view(values@.subrange(0, i as int)), formats_view(fmts)),
                rec.wf(),
            decreases values@.len() - i,
        {
            let (id, bytes, pen) = values[i];
            let (k, v) = Self::enrich_field(fmts, id, bytes, pen);
            rec.insert(k, v);
            let ghost next = raw_fields_view(values@.subrange(0, i + 1));
            assert(next.drop_last() =~= raw_fields_view(values@.subrange(0, i as int)));
            i = i + 1;
        }
        assert(values@.subrange(0, i as int) =~= values@);
        rec
    }

    /// Cuts one field of declared length `field_size` from the start of
    /// `input`; gives its bytes and the bytes it took.
    pub fn take_field(input: &'a [u8], field_size: u16) -> (r: Option<(&'a [u8], usize)>)
        ensures
            r matches Some((v, n)) ==> field_at(input@, field_size) == Some((v@, n as int)),
            r is None ==> field_at(input@, field_size) is None,
    {
        let n = input.len();
        if field_size == 65535 {
            if n < 1 {
                return None;
            }
            let first = input[0];
            if first < 255 {
                let l = first as usize;
                if l + 1 <= n {
                    Some((slice_subrange(input, 1, 1 + l), 1 + l))
                } else {
                    None
                }
            } else if n < 3 {
                None
            } else {
                let l = read_u16_at(input, 1) as usize;
                if l + 3 <= n {
                    Some((slice_subrange(input, 3, 3 + l), 3 + l))
                } else {
                    None
                }
            }
        } else {
            let l = field_size as usize;
            if l <= n {
                Some((slice_subrange(input, 0, l), l))
            } else {
                None
            }
        }
    }

    /// Cuts the fields that `takes` (id, declared length, enterprise number)
    /// ask for, one after another, from the start of `input`.
    pub fn take_fields(input: &'a [u8], takes: &Vec<(u16, u16, u32)>) -> (r: Option<
        (Vec<(u16, &'a [u8], u32)>, usize),
    >)
        ensures
            r matches Some((vals, n)) ==> fields_at(input@, takes@) == Some(
                (raw_fields_view(vals@), n as int),
            ) && n <= input@.len(),
            r is None ==> fields_at(input@, takes@) is None,
    {
        let mut vals: Vec<(u16, &'a [u8], u32)> = Vec::new();
        let mut pos: usize = 0;
        let mut k: usize = 0;
        let n = input.len();
        while k < takes.len()
            invariant
                k <= takes@.len(),
                n == input@.len(),
                pos <= n,
                fields_at(input@, takes@.subrange(0, k as int)) == Some(
                    (raw_fields_view(vals@), pos as int),
                ),
            decreases takes@.len() - k,
        {
            let (id, size, pen) = takes[k];
            let ghost upto = takes@.subrange(0, k + 1);
            assert(upto.drop_last() =~= takes@.subrange(0, k as int));
            match Self::take_field(slice_subrange(input, pos, n), size) {
                None => {
                    proof {
                        lemma_fields_none_stays_none(input@, takes@, k + 1);
                    }
                    return None;
                },
                Some((v, m)) => {
                    let ghost before = vals@;
                    vals.push((id, v, pen));
                    assert(raw_fields_view(vals@) =~= raw_fields_view(before).push((id, v@, pen)));
                    pos = pos + m;
                    k = k + 1;
                },
            }
        }
        assert(takes@.subrange(0, k as int) =~= takes@);
        Some((vals, pos))
    }

    /// Cuts records from `input` one after another under a template whose
    /// fields ask for `takes`, and enriches each through `fmts`. Stops when
    /// the input is used up, a record cannot be cut whole, or a record takes
    /// no bytes.
    pub fn decode_records(
        input: &'a [u8],
        takes: &Vec<(u16, u16, u32)>,
        fmts: &EnterpriseFormatter,
    ) -> (r: Vec<DataRecord<'a>>)
        ensures
            r@.map_values(|d: DataRecord<'a>| d@) == records_of(input@, takes@, formats_view(fmts)),
    {
        let mut records: Vec<DataRecord<'a>> = Vec::new();
        let mut pos: usize = 0;
        let n = input.len();
        assert(input@.subrange(0, n as int) =~= input@);
        assert(records@.map_values(|d: DataRecord<'a>| d@) + records_of(input@, takes@, formats_view(fmts))
            =~= records_of(input@, takes@, formats_view(fmts)));
        while pos < n
            invariant
                n == input@.len(),
                pos <= n,
                records_of(input@, takes@, formats_view(fmts)) == records@.map_values(
                    |d: DataRecord<'a>| d@,
                ) + records_of(input@.subrange(pos as int, n as int), takes@, formats_view(fmts)),
            decreases n - pos,
        {
            let rest = slice_subrange(input, pos, n);
            match Self::take_fields(rest, takes) {
                None => {
                    assert(records@.map_values(|d: DataRecord<'a>| d@) + records_of(rest@, takes@, formats_view(fmts))
                        =~= records@.map_values(|d: DataRecord<'a>| d@));
                    return records;
                },
                Some((vals, m)) => {
                    if m == 0 {
                        assert(records@.map_values(|d: DataRecord<'a>| d@) + records_of(rest@, takes@, formats_view(fmts))
                            =~= records@.map_values(|d: DataRecord<'a>| d@));
                        return records;
                    }
                    let rec = Self::enrich_fields(&vals, fmts);
                    let ghost before = records@;
                    assert(rest@.subrange(m as int, rest@.len() as int) =~= input@.subrange(
                        pos + m,
                        n as int,
                    ));
                    records.push(rec);
                    assert(records@.map_values(|d: DataRecord<'a>| d@) =~= before.map_values(
                        |d: DataRecord<'a>| d@,
                    ) + seq![rec@]);
                    pos = pos + m;
                },
            }
        }
        assert(records@.map_values(|d: DataRecord<'a>| d@) + records_of(input@.subrange(pos as int, n as int), takes@, formats_view(fmts))
            =~= records@.map_values(|d: DataRecord<'a>| d@));
        records
    }

    /// Decodes a data set body against the template that `state` holds
    /// under `set_id` (a template first, else an options template).
    pub fn parse(
        input: &'a [u8],
        length: u16,
        set_id: u16,
        value_parsers: &EnterpriseFormatter,
        state: &State,
    ) -> (r: Result<DataSet<'a>, ParseError>)
        ensures
            match state@.fields_for(set_id) {
                None => r == Err::<DataSet<'a>, ParseError>(ParseError::UnknownTemplate),
                Some(fs) => r matches Ok(ds) && ds@ == (DataSetModel {
                    header: SetHeader { set_id, length },
                    records: records_of(input@, takes_of(fs), formats_view(value_parsers)),
                }),
            },
    {
        let takes = match state.get_template(&set_id) {
            Some(template) => takes_of_fields(&template.field_specifiers),
            None => match state.get_options_template(&set_id) {
                Some(template) => takes_of_fields(&template.field_specifiers),
                None => {
                    return Err(ParseError::UnknownTemplate);
                },
            },
        };
        let records = Self::decode_records(input, &takes, value_parsers);
        Ok(DataSet { header: SetHeader { set_id, length }, records })
    }
}

/// Once the fields of a prefix of `takes` cannot be cut, neither can those
/// of `takes`.
proof fn lemma_fields_none_stays_none(b: Seq<u8>, takes: Seq<(u16, u16, u32)>, k: int)
    requires
        0 <= k <= takes.len(),
        fields_at(b, takes.subrange(0, k)) is None,
    ensures
        fields_at(b, takes) is None,
    decreases takes.len() - k,
{
    if k < takes.len() {
        assert(takes.subrange(0, k + 1).drop_last() =~= takes.subrange(0, k));
        lemma_fields_none_stays_none(b, takes, k + 1);
    } else {
        assert(takes.subrange(0, k) =~= takes);
    }
}

/// The header of the set at the start of `b`, and the bytes the set takes
/// (its declared length), where that length is at least 4 and lies within
/// `b`.
pub open spec fn set_at(b: Seq<u8>) -> Option<(SetHeader, int)> {
    if b.len() < 4 {
        None
    } else {
        let len = be16(b, 2);
        if len < 4 || len > b.len() {
            None
        } else {
            Some((SetHeader { set_id: be16(b, 0), length: len }, len as int))
        }
    }
}

/// The sets of a message body, each as its header and its body: cut one
/// after another until the next set header is short or its length is out
/// of bounds.
pub open spec fn sets_in(b: Seq<u8>) -> Seq<(SetHeader, Seq<u8>)>
    decreases b.len(),
{
    match set_at(b) {
        None => seq![],
        Some((h, n)) => if 4 <= n <= b.len() {
            seq![(h, b.subrange(4, n))] + sets_in(b.subrange(n, b.len() as int))
        } else {
            seq![]
        },
    }
}

/// The body length of a set with header `h`: its declared length less the
/// 4 header bytes, 0 where the length is under 4.
pub open spec fn body_length(h: SetHeader) -> u16 {
    if h.length < 4 {
        0
    } else {
        (h.length - 4) as u16
    }
}

/// What a set stands for: its header, kind, body and decoded data sets.
pub struct SetModel {
    pub hdr: SetHeader,
    pub stype: SetType,
    pub buf: Seq<u8>,
    pub data: Seq<DataSetModel>,
}

/// A set of a message: its header, kind, body, and the data set decoded
/// from the body where it is a data set with a known template.
#[derive(Debug)]
pub struct MessageSet<'a> {
    pub hdr: SetHeader,
    pub stype: SetType,
    pub buf: &'a [u8],
    pub data: Vec<DataSet<'a>>,
}

impl<'a> View for MessageSet<'a> {
    type V = SetModel;

    open spec fn view(&self) -> SetModel {
        SetModel {
            hdr: self.hdr,
            stype: self.stype,
            buf: self.buf@,
            data: self.data@.map_values(|d: DataSet<'a>| d@),
        }
    }
}

/// The registry after a set of kind `stype` with body `body`: a template
/// set stores its templates, an options template set its options
/// templates, a data set changes nothing.
pub open spec fn apply_set(st: StateModel, stype: SetType, body: Seq<u8>) -> StateModel {
    match stype {
        SetType::Template => st.with_templates(templates_in(body)),
        SetType::OptionTemplate => st.with_options_templates(options_templates_in(body)),
        SetType::DataSet => st,
    }
}

/// The data sets that a set yields against the registry `st`: for a data
/// set whose id has a template, the records of its body; else none.
pub open spec fn set_data(
    st: StateModel,
    stype: SetType,
    hdr: SetHeader,
    body: Seq<u8>,
    fmts: Map<u32, Map<u16, (&'static str, FieldDecoder)>>,
) -> Seq<DataSetModel> {
    if stype == SetType::DataSet {
        match st.fields_for(hdr.set_id) {
            Some(fs) => seq![
                DataSetModel {
                    header: SetHeader { set_id: hdr.set_id, length: body_length(hdr) },
                    records: records_of(body, takes_of(fs), fmts),
                },
            ],
            None => seq![],
        }
    } else {
        seq![]
    }
}

/// The registry after the sets `sets` (header, body), in order.
pub open spec fn process_sets(st: StateModel, sets: Seq<(SetHeader, Seq<u8>)>) -> StateModel
    decreases sets.len(),
{
    if sets.len() == 0 {
        st
    } else {
        apply_set(
            process_sets(st, sets.drop_last()),
            set_type_of(sets.last().0.set_id),
            sets.last().1,
        )
    }
}

/// The decoded sets of a message whose sets are `sets` (header, body),
/// starting from the registry `st`: each data set is decoded against the
/// registry as the sets before it left it.
pub open spec fn decoded_sets(
    st: StateModel,
    sets: Seq<(SetHeader, Seq<u8>)>,
    fmts: Map<u32, Map<u16, (&'static str, FieldDecoder)>>,
) -> Seq<SetModel>
    decreases sets.len(),
{
    if sets.len() == 0 {
        seq![]
    } else {
        let (h, body) = sets.last();
        let stype = set_type_of(h.set_id);
        decoded_sets(st, sets.drop_last(), fmts).push(
            SetModel {
                hdr: h,
                stype,
                buf: body,
                data: set_data(process_sets(st, sets.drop_last()), stype, h, body, fmts),
            },
        )
    }
}

impl<'a> MessageSet<'a> {
    /// Cuts the set at the start of `input`; gives the bytes after it and
    /// the set, with no data decoded yet.
    pub fn parse(input: &'a [u8]) -> (r: Result<(&'a [u8], MessageSet<'a>), ParseError>)
        ensures
            match set_at(input@) {
                None => r == Err::<(&'a [u8], MessageSet<'a>), ParseError>(ParseError::TruncatedSet),
                Some((h, n)) => r matches Ok((rest, set)) && rest@ == input@.subrange(
                    n,
                    input@.len() as int,
                ) && set@ == (SetModel {
                    hdr: h,
                    stype: set_type_of(h.set_id),
                    buf: input@.subrange(4, n),
                    data: seq![],
                }),
            },
    {
        let n = input.len();
        if n < 4 {
            return Err(ParseError::TruncatedSet);
        }
        let set_id = read_u16_at(input, 0);
        let length = read_u16_at(input, 2);
        if length < 4 || length as usize > n {
            return Err(ParseError::TruncatedSet);
        }
        let end = length as usize;
        let set = MessageSet {
            hdr: SetHeader { set_id, length },
            stype: SetType::from(set_id),
            buf: slice_subrange(input, 4, end),
            data: Vec::new(),
        };
        assert(set@.data =~= Seq::<DataSetModel>::empty());
        Ok((slice_subrange(input, end, n), set))
    }

    /// The body length that the header declares, where it declares at least
    /// the 4 header bytes.
    pub fn length(&self) -> (r: Option<usize>)
        ensures
            r == (if self.hdr.length < 4 {
                None
            } else {
                Some((self.hdr.length - 4) as usize)
            }),
    {
        if self.hdr.length < 4 {
            None
        } else {
            Some((self.hdr.length - 4) as usize)
        }
    }

    /// Decodes the body as a data set against the template that `state`
    /// holds under the set id, and appends the result to `data`.
    pub fn process_data_set(&mut self, fmts: &EnterpriseFormatter, state: &State) -> (r: Result<
        (),
        ParseError,
    >)
        ensures
            final(self)@ == (SetModel {
                data: old(self)@.data + set_data(
                    state@,
                    SetType::DataSet,
                    old(self).hdr,
                    old(self).buf@,
                    formats_view(fmts),
                ),
                ..old(self)@
            }),
            r is Err <==> state@.fields_for(old(self).hdr.set_id) is None,
            r is Err ==> r == Err::<(), ParseError>(ParseError::UnknownTemplate),
    {
        let length = match self.length() {
            Some(l) => l as u16,
            None => 0,
        };
        let ghost before = self.data@;
        match DataSet::parse(self.buf, length, self.hdr.set_id, fmts, state) {
            Ok(ds) => {
                let ghost d = ds@;
                self.data.push(ds);
                assert(self.data@.map_values(|d: DataSet<'a>| d@) =~= before.map_values(
                    |d: DataSet<'a>| d@,
                ) + seq![d]);
                Ok(())
            },
            Err(e) => {
                assert(before.map_values(|d: DataSet<'a>| d@) + Seq::<DataSetModel>::empty()
                    =~= before.map_values(|d: DataSet<'a>| d@));
                Err(e)
            },
        }
    }

    /// Processes the set by its kind: a template set stores its templates
    /// in `state`, an options template set its options templates, and a data
    /// set is decoded against `state` into `data`.
    pub fn process_set_body(&mut self, fmts: &EnterpriseFormatter, state: &mut State) -> (r: Result<
        (),
        ParseError,
    >)
        ensures
            final(state)@ == apply_set(old(state)@, old(self).stype, old(self).buf@),
            final(self)@ == (SetModel {
                data: old(self)@.data + set_data(
                    old(state)@,
                    old(self).stype,
                    old(self).hdr,
                    old(self).buf@,
                    formats_view(fmts),
                ),
                ..old(self)@
            }),
            r is Err <==> old(self).stype == SetType::DataSet && old(state)@.fields_for(
                old(self).hdr.set_id,
            ) is None,
            r is Err ==> r == Err::<(), ParseError>(ParseError::UnknownTemplate),
    {
        match self.stype {
            SetType::DataSet => self.process_data_set(fmts, state),
            SetType::OptionTemplate => {
                let tv = OptionsTemplate::parse_many(self.buf);
                state.add_options_templates(tv);
                assert(self@.data + Seq::<DataSetModel>::empty() =~= self@.data);
                Ok(())
            },
            SetType::Template => {
                let tv = Template::parse_many(self.buf);
                state.add_templates(tv);
                assert(self@.data + Seq::<DataSetModel>::empty() =~= self@.data);
                Ok(())
            },
        }
    }

    /// Cuts the sets of a message body one after another until the next set
    /// header is short or its length is out of bounds.
    pub fn parse_many(input: &'a [u8]) -> (r: Vec<MessageSet<'a>>)
        ensures
            raw_sets_view(r@) == sets_in(input@),
            forall|i: int|
                0 <= i < r@.len() ==> (#[trigger] r@[i]).stype == set_type_of(r@[i].hdr.set_id)
                    && r@[i].data@.len() == 0,
    {
        let mut out: Vec<MessageSet<'a>> = Vec::new();
        let mut pos: usize = 0;
        let n = input.len();
        assert(input@.subrange(0, n as int) =~= input@);
        assert(raw_sets_view(out@) + sets_in(input@) =~= sets_in(input@));
        while pos < n
            invariant
                n == input@.len(),
                pos <= n,
                sets_in(input@) == raw_sets_view(out@) + sets_in(
                    input@.subrange(pos as int, n as int),
                ),
                forall|i: int|
                    0 <= i < out@.len() ==> (#[trigger] out@[i]).stype == set_type_of(
                        out@[i].hdr.set_id,
                    ) && out@[i].data@.len() == 0,
            decreases n - pos,
        {
            let rest = slice_subrange(input, pos, n);
            match Self::parse(rest) {
                Err(_) => {
                    assert(raw_sets_view(out@) + sets_in(rest@) =~= raw_sets_view(out@));
                    return out;
                },
                Ok((_after, set)) => {
                    let m = set.hdr.length as usize;
                    let ghost before = out@;
                    let ghost item = (set.hdr, set.buf@);
                    assert(rest@.subrange(m as int, rest@.len() as int) =~= input@.subrange(
                        pos + m,
                        n as int,
                    ));
                    assert(set@.data.len() == set.data@.len());
                    out.push(set);
                    assert(raw_sets_view(out@) =~= raw_sets_view(before) + seq![item]);
                    pos = pos + m;
                },
            }
        }
        assert(raw_sets_view(out@) + sets_in(input@.subrange(pos as int, n as int)) =~= raw_sets_view(
            out@,
        ));
        out
    }
}

/// The view of cut sets: (header, body) of each.
pub open spec fn raw_sets_view<'a>(v: Seq<MessageSet<'a>>) -> Seq<(SetHeader, Seq<u8>)> {
    v.map_values(|s: MessageSet<'a>| (s.hdr, s.buf@))
}

/// What a message stands for: its header fields and its sets.
pub struct MessageModel {
    pub version: u16,
    pub length: u16,
    pub export_time: u32,
    pub sequence_number: u32,
    pub observation_domain_id: u32,
    pub sets: Seq<SetModel>,
}

/// The header fields of the message that starts `b`, with no sets.
pub open spec fn header_model(b: Seq<u8>) -> MessageModel {
    MessageModel {
        version: be16(b, 0),
        length: be16(b, 2),
        export_time: be32(b, 4),
        sequence_number: be32(b, 8),
        observation_domain_id: be32(b, 12),
        sets: seq![],
    }
}

/// Whether `b` starts with a readable message header of version 10.
pub open spec fn header_ok(b: Seq<u8>) -> bool {
    b.len() >= 16 && be16(b, 0) == 10
}

/// A decoded IPFIX message.
#[derive(Debug)]
pub struct Message<'a> {
    pub version: u16,
    pub length: u16,
    pub export_time: u32,
    pub sequence_number: u32,
    pub observation_domain_id: u32,
    pub sets: Vec<MessageSet<'a>>,
}

impl<'a> View for Message<'a> {
    type V = MessageModel;

    open spec fn view(&self) -> MessageModel {
        MessageModel {
            version: self.version,
            length: self.length,
            export_time: self.export_time,
            sequence_number: self.sequence_number,
            observation_domain_id: self.observation_domain_id,
            sets: self.sets@.map_values(|s: MessageSet<'a>| s@),
        }
    }
}

/// The records of the data sets `ds`, in order.
pub open spec fn data_sets_records(ds: Seq<DataSetModel>) -> Seq<Seq<(KeyModel, ValueModel)>>
    decreases ds.len(),
{
    if ds.len() == 0 {
        seq![]
    } else {
        data_sets_records(ds.drop_last()) + ds.last().records
    }
}

/// The records of the data sets among `sets`, in order.
pub open spec fn sets_records(sets: Seq<SetModel>) -> Seq<Seq<(KeyModel, ValueModel)>>
    decreases sets.len(),
{
    if sets.len() == 0 {
        seq![]
    } else {
        sets_records(sets.drop_last()) + if sets.last().stype == SetType::DataSet {
            data_sets_records(sets.last().data)
        } else {
            seq![]
        }
    }
}

/// The view of borrowed records.
pub open spec fn records_view<'a, 'b>(v: Seq<&'b DataRecord<'a>>) -> Seq<
    Seq<(KeyModel, ValueModel)>,
> {
    v.map_values(|d: &'b DataRecord<'a>| d@)
}

/// Appends the records of `ds` to `out`.
fn push_records<'a, 'b>(out: &mut Vec<&'b DataRecord<'a>>, ds: &'b DataSet<'a>)
    ensures
        records_view(final(out)@) == records_view(old(out)@) + ds@.records,
{
    let mut k: usize = 0;
    while k < ds.records.len()
        invariant
            k <= ds.records@.len(),
            records_view(out@) == records_view(old(out)@) + ds@.records.subrange(0, k as int),
        decreases ds.records@.len() - k,
    {
        let ghost before = out@;
        out.push(&ds.records[k]);
        assert(records_view(out@) =~= records_view(before).push(ds.records@[k as int]@));
        k = k + 1;
        assert(records_view(out@) =~= records_view(old(out)@) + ds@.records.subrange(0, k as int));
    }
    assert(ds@.records.subrange(0, k as int) =~= ds@.records);
}

/// Appends the records of the data sets of `set` to `out`.
fn push_set_records<'a, 'b>(out: &mut Vec<&'b DataRecord<'a>>, set: &'b MessageSet<'a>)
    ensures
        records_view(final(out)@) == records_view(old(out)@) + data_sets_records(set@.data),
{
    let mut j: usize = 0;
    assert(records_view(out@) =~= records_view(old(out)@) + data_sets_records(
        set@.data.subrange(0, 0),
    ));
    while j < set.data.len()
        invariant
            j <= set.data@.len(),
            records_view(out@) == records_view(old(out)@) + data_sets_records(
                set@.data.subrange(0, j as int),
            ),
        decreases set.data@.len() - j,
    {
        push_records(out, &set.data[j]);
        assert(set@.data.subrange(0, j + 1).drop_last() =~= set@.data.subrange(0, j as int));
        j = j + 1;
        assert(records_view(out@) =~= records_view(old(out)@) + data_sets_records(
            set@.data.subrange(0, j as int),
        ));
    }
    assert(set@.data.subrange(0, j as int) =~= set@.data);
}

impl<'a> Message<'a> {
    /// Reads the 16-byte message header; gives the bytes after it and the
    /// message, with no sets yet.
    pub fn parse(input: &'a [u8]) -> (r: Result<(&'a [u8], Message<'a>), ParseError>)
        ensures
            !header_ok(input@) ==> r == Err::<(&'a [u8], Message<'a>), ParseError>(
                ParseError::BadHeader,
            ),
            header_ok(input@) ==> (r matches Ok((rest, m)) && rest@ == input@.subrange(
                16,
                input@.len() as int,
            ) && m@ == header_model(input@)),
    {
        let n = input.len();
        if n < 16 {
            return Err(ParseError::BadHeader);
        }
        let version = read_u16_at(input, 0);
        if version != 10 {
            return Err(ParseError::BadHeader);
        }
        let m = Message {
            version,
            length: read_u16_at(input, 2),
            export_time: read_u32_at(input, 4),
            sequence_number: read_u32_at(input, 8),
            observation_domain_id: read_u32_at(input, 12),
            sets: Vec::new(),
        };
        assert(m@.sets =~= Seq::<SetModel>::empty());
        Ok((slice_subrange(input, 16, n), m))
    }

    /// The records of all data sets of the message, in order; empty if
    /// there are none.
    pub fn get_dataset_records(&self) -> (r: Vec<&DataRecord<'a>>)
        ensures
            records_view(r@) == sets_records(self@.sets),
    {
        let mut out: Vec<&DataRecord<'a>> = Vec::new();
        let mut i: usize = 0;
        assert(records_view(out@) =~= sets_records(self@.sets.subrange(0, 0)));
        while i < self.sets.len()
            invariant
                i <= self.sets@.len(),
                records_view(out@) == sets_records(self@.sets.subrange(0, i as int)),
            decreases self.sets@.len() - i,
        {
            let set = &self.sets[i];
            let ghost before = records_view(out@);
            if set.stype == SetType::DataSet {
                push_set_records(&mut out, set);
            } else {
                assert(before + Seq::<Seq<(KeyModel, ValueModel)>>::empty() =~= before);
            }
            assert(self@.sets.subrange(0, i + 1).drop_last() =~= self@.sets.subrange(0, i as int));
            i = i + 1;
        }
        assert(self@.sets.subrange(0, i as int) =~= self@.sets);
        out
    }
}

/// The decoder: the registry of field formatters, by enterprise number and
/// field id, that data records are enriched through.
pub struct Parser {
    pen_formatter: EnterpriseFormatter,
}

impl View for Parser {
    type V = Map<u32, Map<u16, (&'static str, FieldDecoder)>>;

    closed spec fn view(&self) -> Map<u32, Map<u16, (&'static str, FieldDecoder)>> {
        formats_view(&self.pen_formatter)
    }
}

impl Default for Parser {
    fn default() -> (r: Parser)
        ensures
            r@ == map![0u32 => default_formats()],
    {
        Parser::new()
    }
}

impl Parser {
    /// A decoder that knows the built-in IANA formatters under enterprise
    /// number 0 and nothing else.
    pub fn new() -> (r: Parser)
        ensures
            r@ == map![0u32 => default_formats()],
    {
        let mut m: EnterpriseFormatter = FxHashMap::default();
        fx_insert(&mut m, 0, get_default_parsers());
        let r = Parser { pen_formatter: m };
        assert(r@ =~= map![0u32 => default_formats()]);
        r
    }

    /// Registers `name` and `parser` for field `field_id` under
    /// `enterprise_number`, replacing what was registered there.
    pub fn add_custom_field(
        &mut self,
        enterprise_number: u32,
        field_id: u16,
        name: &'static str,
        parser: FieldDecoder,
    )
        ensures
            final(self)@ == old(self)@.insert(
                enterprise_number,
                (if old(self)@.contains_key(enterprise_number) {
                    old(self)@[enterprise_number]
                } else {
                    Map::empty()
                }).insert(field_id, (name, parser)),
            ),
    {
        let mut inner: FieldFormatter = match fx_remove(&mut self.pen_formatter, &enterprise_number) {
            Some(m) => m,
            None => FxHashMap::default(),
        };
        fx_insert(&mut inner, field_id, (name, parser));
        fx_insert(&mut self.pen_formatter, enterprise_number, inner);
        assert(self@ =~= old(self)@.insert(
            enterprise_number,
            (if old(self)@.contains_key(enterprise_number) {
                old(self)@[enterprise_number]
            } else {
                Map::empty()
            }).insert(field_id, (name, parser)),
        ));
    }

    /// The registry of field formatters.
    pub fn formatters(&self) -> (r: &EnterpriseFormatter)
        ensures
            formats_view(r) == self@,
    {
        &self.pen_formatter
    }

    /// Decodes an IPFIX message: reads the header, cuts the sets, then
    /// processes them in order against `state`, which template sets update
    /// and data sets are decoded against. A data set without a template
    /// yields no records and does not stop the message.
    pub fn parse_message<'a>(&self, state: &mut State, input: &'a [u8]) -> (r: Result<
        Message<'a>,
        ParseError,
    >)
        ensures
            !header_ok(input@) ==> r == Err::<Message<'a>, ParseError>(ParseError::BadHeader)
                && final(state)@ == old(state)@,
            header_ok(input@) ==> ({
                let sets = sets_in(input@.subrange(16, input@.len() as int));
                &&& r matches Ok(m)
                &&& m@ == (MessageModel {
                    sets: decoded_sets(old(state)@, sets, self@),
                    ..header_model(input@)
                })
                &&& final(state)@ == process_sets(old(state)@, sets)
            }),
    {
        let (body, mut parsed) = match Message::parse(input) {
            Err(e) => {
                return Err(e);
            },
            Ok(p) => p,
        };
        let raw = MessageSet::parse_many(body);
        let ghost all = raw_sets_view(raw@);
        let ghost st0 = state@;
        let mut sets: Vec<MessageSet<'a>> = Vec::new();
        let mut i: usize = 0;
        assert(all.subrange(0, 0) =~= Seq::<(SetHeader, Seq<u8>)>::empty());
        assert(sets@.map_values(|s: MessageSet<'a>| s@) =~= Seq::<SetModel>::empty());
        while i < raw.len()
            invariant
                i <= raw@.len(),
                all == raw_sets_view(raw@),
                forall|k: int|
                    0 <= k < raw@.len() ==> (#[trigger] raw@[k]).stype == set_type_of(
                        raw@[k].hdr.set_id,
                    ) && raw@[k].data@.len() == 0,
                state@ == process_sets(st0, all.subrange(0, i as int)),
                sets@.map_values(|s: MessageSet<'a>| s@) == decoded_sets(
                    st0,
                    all.subrange(0, i as int),
                    self@,
                ),
            decreases raw@.len() - i,
        {
            let r = &raw[i];
            let mut set = MessageSet { hdr: r.hdr, stype: r.stype, buf: r.buf, data: Vec::new() };
            assert(set@.data =~= Seq::<DataSetModel>::empty());
            let ghost before = sets@;
            let ghost st_before = state@;
            let _ = set.process_set_body(&self.pen_formatter, state);
            sets.push(set);
            proof {
                let pre = all.subrange(0, i + 1);
                assert(pre.drop_last() =~= all.subrange(0, i as int));
                assert(pre.last() == all[i as int]);
                assert(Seq::<DataSetModel>::empty() + set_data(
                    st_before,
                    r.stype,
                    r.hdr,
                    r.buf@,
                    self@,
                ) =~= set_data(st_before, r.stype, r.hdr, r.buf@, self@));
                assert(sets@.map_values(|s: MessageSet<'a>| s@) =~= before.map_values(
                    |s: MessageSet<'a>| s@,
                ).push(set@));
            }
            i = i + 1;
        }
        assert(all.subrange(0, i as int) =~= all);
        parsed.sets = sets;
        assert(parsed@ =~= (MessageModel {
            sets: decoded_sets(st0, all, self@),
            ..header_model(input@)
        }));
        Ok(parsed)
    }
}

} // verus!

