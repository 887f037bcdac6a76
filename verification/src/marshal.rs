//! The dynamic row marshaler: converts backend SQL-query output — an ordered
//! list of fields, each a column name, a type tag and raw bytes — into typed
//! values. Tag 1 parses the bytes as a signed integer, tag 2 as decimal
//! floating-point text, tag 3 takes them as UTF-8 text (empty when invalid),
//! tag 4 base64-encodes them verbatim; any other tag, or a failed numeric
//! parse, degrades to an explicit absent value rather than an error.

use vstd::prelude::*;
use vstd::utf8::decode_utf8;
use vstd::utf8::valid_utf8;

verus! {

// ---------------------------------------------------------------------------
// Signed decimal integers, with the grammar `str::parse::<i64>` accepts:
// an optional sign, then one or more ASCII digits, and the value in range.
// ---------------------------------------------------------------------------

pub open spec fn is_dec_digit(b: u8) -> bool {
    48 <= b && b <= 57
}

pub open spec fn all_dec_digits(s: Seq<u8>) -> bool {
    forall|i: int| 0 <= i < s.len() ==> is_dec_digit(#[trigger] s[i])
}

/// The integer a run of ASCII digits denotes, most significant first.
pub open spec fn digits_value(s: Seq<u8>) -> int
    decreases s.len(),
{
    if s.len() == 0 {
        0
    } else {
        digits_value(s.drop_last()) * 10 + (s.last() - 48)
    }
}

/// The digits of an optionally signed number: everything after a leading
/// `+` or `-`.
pub open spec fn int_body(s: Seq<u8>) -> Seq<u8> {
    if s.len() > 0 && (s[0] == 43 || s[0] == 45) {
        s.drop_first()
    } else {
        s
    }
}

pub open spec fn int_is_negative(s: Seq<u8>) -> bool {
    s.len() > 0 && s[0] == 45
}

/// What `str::parse::<i64>` yields on this text: the signed value when the
/// text is an optional sign followed by at least one digit and the value fits
/// in an `i64`; nothing otherwise.
pub open spec fn parse_i64_spec(s: Seq<u8>) -> Option<i64> {
    let ds = int_body(s);
    if ds.len() == 0 || !all_dec_digits(ds) {
        None
    } else {
        let v = if int_is_negative(s) {
            -digits_value(ds)
        } else {
            digits_value(ds)
        };
        if i64::MIN <= v <= i64::MAX {
            Some(v as i64)
        } else {
            None
        }
    }
}

proof fn lemma_digits_value_nonneg(s: Seq<u8>)
    requires
        all_dec_digits(s),
    ensures
        digits_value(s) >= 0,
    decreases s.len(),
{
    if s.len() > 0 {
        assert(all_dec_digits(s.drop_last()));
        lemma_digits_value_nonneg(s.drop_last());
    }
}

/// A digit string denotes at least what any of its prefixes denotes.
proof fn lemma_digits_value_prefix_le(s: Seq<u8>, j: int)
    requires
        all_dec_digits(s),
        0 <= j <= s.len(),
    ensures
        digits_value(s.take(j)) <= digits_value(s),
    decreases s.len() - j,
{
    if j == s.len() {
        assert(s.take(j) =~= s);
    } else {
        assert(s.take(j + 1).drop_last() =~= s.take(j));
        assert(s.take(j + 1).last() == s[j]);
        assert(all_dec_digits(s.take(j)));
        lemma_digits_value_nonneg(s.take(j));
        assert(digits_value(s.take(j + 1)) == digits_value(s.take(j)) * 10 + (s[j] - 48));
        lemma_digits_value_prefix_le(s, j + 1);
    }
}

/// Parses optionally signed decimal text exactly as `str::parse::<i64>`
/// does, rejecting empty or non-digit bodies and out-of-range values.
pub fn parse_i64(s: &[u8]) -> (r: Option<i64>)
    ensures
        r == parse_i64_spec(s@),
{
    let n = s.len();
    let mut start: usize = 0;
    let mut neg = false;
    if n > 0 && (s[0] == 43 || s[0] == 45) {
        neg = s[0] == 45;
        start = 1;
    }
    if start >= n {
        return None;
    }
    let ghost ds = int_body(s@);
    proof {
        assert(ds =~= s@.skip(start as int));
    }
    let bound: u64 = if neg {
        9223372036854775808
    } else {
        9223372036854775807
    };
    let mut mag: u64 = 0;
    let mut i: usize = start;
    while i < n
        invariant
            start <= i <= n,
            n == s@.len(),
            start == 1 ==> (s@[0] == 43 || s@[0] == 45),
            start == 0 ==> ds == s@,
            neg == int_is_negative(s@),
            ds == int_body(s@),
            ds == s@.skip(start as int),
            ds.len() == n - start,
            bound == if neg { 9223372036854775808u64 } else { 9223372036854775807u64 },
            forall|j: int| 0 <= j < i - start ==> is_dec_digit(#[trigger] ds[j]),
            mag == digits_value(ds.take(i - start)),
            mag <= bound,
        decreases n - i,
    {
        let b = s[i];
        proof {
            assert(ds[i - start] == s@[i as int]);
        }
        if b < 48 || b > 57 {
            assert(!all_dec_digits(ds));
            return None;
        }
        let ghost j = i - start + 1;
        proof {
            assert(ds.take(j).drop_last() =~= ds.take(j - 1));
            assert(ds.take(j).last() == ds[j - 1]);
        }
        let d = (b - 48) as u64;
        if mag > 922337203685477580u64 {
            proof {
                assert(digits_value(ds.take(j)) == mag * 10 + d);
                assert(digits_value(ds.take(j)) > bound);
                if all_dec_digits(ds) {
                    lemma_digits_value_prefix_le(ds, j);
                }
            }
            return None;
        }
        let m10 = mag * 10;
        if m10 > bound - d {
            proof {
                assert(digits_value(ds.take(j)) == mag * 10 + d);
                assert(digits_value(ds.take(j)) > bound);
                if all_dec_digits(ds) {
                    lemma_digits_value_prefix_le(ds, j);
                }
            }
            return None;
        }
        mag = m10 + d;
        i = i + 1;
    }
    proof {
        assert(ds.take(n - start) =~= ds);
        assert(all_dec_digits(ds));
    }
    if neg {
        if mag == 9223372036854775808u64 {
            Some(i64::MIN)
        } else {
            Some(-(mag as i64))
        }
    } else {
        Some(mag as i64)
    }
}

// ---------------------------------------------------------------------------
// Decimal floating-point text, with the grammar `str::parse::<f64>` accepts:
// an optional sign, then either a case-insensitive special word (`inf`,
// `infinity`, `nan`) or a mantissa with at least one digit and an optional
// dot, optionally followed by an exponent with at least one digit. Parsing
// never fails on range, so matching this grammar is exactly parse success.
// ---------------------------------------------------------------------------

pub open spec fn lower_byte(b: u8) -> u8 {
    if 65 <= b && b <= 90 {
        (b + 32) as u8
    } else {
        b
    }
}

pub open spec fn lower_bytes(s: Seq<u8>) -> Seq<u8> {
    s.map_values(|b: u8| lower_byte(b))
}

/// First index at or after `from` that does not hold an ASCII digit.
pub open spec fn digits_run_end(s: Seq<u8>, from: int) -> int
    decreases s.len() - from,
{
    if 0 <= from < s.len() && is_dec_digit(s[from]) {
        digits_run_end(s, from + 1)
    } else {
        from
    }
}

/// The bytes from `start` on spell one of the special words `inf`,
/// `infinity`, `nan`, case-insensitively.
pub open spec fn is_special_from(s: Seq<u8>, start: int) -> bool {
    let t = lower_bytes(s.subrange(start, s.len() as int));
    ||| t == seq![105u8, 110u8, 102u8]
    ||| t == seq![105u8, 110u8, 102u8, 105u8, 110u8, 105u8, 116u8, 121u8]
    ||| t == seq![110u8, 97u8, 110u8]
}

/// From `from` on, either the text ends, or it holds a well-formed exponent
/// (`e`/`E`, an optional sign, one or more digits) that runs to the end.
pub open spec fn exp_ok(s: Seq<u8>, from: int) -> bool {
    if from == s.len() {
        true
    } else if s[from] == 101 || s[from] == 69 {
        let e_start = if from + 1 < s.len() && (s[from + 1] == 43 || s[from + 1] == 45) {
            from + 2
        } else {
            from + 1
        };
        let e_end = digits_run_end(s, e_start);
        e_end > e_start && e_end == s.len()
    } else {
        false
    }
}

/// From `start` on, a mantissa with at least one digit (before or after an
/// optional dot), followed by a valid exponent position.
pub open spec fn number_from(s: Seq<u8>, start: int) -> bool {
    let d1 = digits_run_end(s, start);
    if d1 < s.len() && s[d1] == 46 {
        let f_end = digits_run_end(s, d1 + 1);
        (d1 > start || f_end > d1 + 1) && exp_ok(s, f_end)
    } else {
        d1 > start && exp_ok(s, d1)
    }
}

/// The text parses as an `f64`: an optional sign, then a special word or a
/// number.
pub open spec fn is_float_text(s: Seq<u8>) -> bool {
    let start: int = if s.len() > 0 && (s[0] == 43 || s[0] == 45) {
        1
    } else {
        0
    };
    is_special_from(s, start) || number_from(s, start)
}

fn lower_byte_ex(b: u8) -> (r: u8)
    ensures
        r == lower_byte(b),
{
    if 65 <= b && b <= 90 {
        b + 32
    } else {
        b
    }
}

fn digits_run_end_ex(s: &[u8], from: usize) -> (r: usize)
    requires
        from <= s@.len(),
    ensures
        from <= r <= s@.len(),
        r == digits_run_end(s@, from as int),
    decreases s@.len() - from,
{
    if from < s.len() && s[from] >= 48 && s[from] <= 57 {
        digits_run_end_ex(s, from + 1)
    } else {
        from
    }
}

fn special_check(s: &[u8], start: usize) -> (r: bool)
    requires
        start <= s@.len(),
    ensures
        r == is_special_from(s@, start as int),
{
    let ghost t = lower_bytes(s@.subrange(start as int, s@.len() as int));
    let n = s.len();
    let m = n - start;
    if m == 3 {
        let c0 = lower_byte_ex(s[start]);
        let c1 = lower_byte_ex(s[start + 1]);
        let c2 = lower_byte_ex(s[start + 2]);
        let inf = c0 == 105 && c1 == 110 && c2 == 102;
        let nan = c0 == 110 && c1 == 97 && c2 == 110;
        proof {
            assert(t.len() == 3);
            assert(t[0] == lower_byte(s@[start as int]));
            assert(t[1] == lower_byte(s@[start as int + 1]));
            assert(t[2] == lower_byte(s@[start as int + 2]));
            if inf {
                assert(t =~= seq![105u8, 110u8, 102u8]);
            }
            if nan {
                assert(t =~= seq![110u8, 97u8, 110u8]);
            }
        }
        inf || nan
    } else if m == 8 {
        let mut ok = true;
        let pat: [u8; 8] = [105, 110, 102, 105, 110, 105, 116, 121];
        let mut i: usize = 0;
        while i < 8
            invariant
                0 <= i <= 8,
                n == s@.len(),
                start + 8 == s@.len(),
                t == lower_bytes(s@.subrange(start as int, s@.len() as int)),
                pat@ == seq![105u8, 110u8, 102u8, 105u8, 110u8, 105u8, 116u8, 121u8],
                ok == forall|j: int| 0 <= j < i ==> #[trigger] t[j] == pat@[j],
            decreases 8 - i,
        {
            proof {
                assert(t[i as int] == lower_byte(s@[start + i]));
            }
            let c = lower_byte_ex(s[start + i]);
            ok = ok && c == pat[i];
            i = i + 1;
        }
        proof {
            assert(t.len() == 8);
            if ok {
                assert(t =~= seq![105u8, 110u8, 102u8, 105u8, 110u8, 105u8, 116u8, 121u8]);
            }
        }
        ok
    } else {
        proof {
            assert(t.len() == m);
        }
        false
    }
}

fn exp_check(s: &[u8], from: usize) -> (r: bool)
    requires
        from <= s@.len(),
    ensures
        r == exp_ok(s@, from as int),
{
    let n = s.len();
    if from == n {
        true
    } else if s[from] == 101 || s[from] == 69 {
        let e_start = if from + 1 < n && (s[from + 1] == 43 || s[from + 1] == 45) {
            from + 2
        } else {
            from + 1
        };
        let e_end = digits_run_end_ex(s, e_start);
        e_end > e_start && e_end == n
    } else {
        false
    }
}

/// Decides whether `str::parse::<f64>` would accept this text, by its
/// documented grammar; parsing floats never fails on range, only on form.
pub fn float_text_check(s: &[u8]) -> (r: bool)
    ensures
        r == is_float_text(s@),
{
    let n = s.len();
    let start: usize = if n > 0 && (s[0] == 43 || s[0] == 45) {
        1
    } else {
        0
    };
    if special_check(s, start) {
        return true;
    }
    let d1 = digits_run_end_ex(s, start);
    if d1 < n && s[d1] == 46 {
        let f_end = digits_run_end_ex(s, d1 + 1);
        if d1 > start || f_end > d1 + 1 {
            exp_check(s, f_end)
        } else {
            false
        }
    } else {
        if d1 > start {
            exp_check(s, d1)
        } else {
            false
        }
    }
}

// ---------------------------------------------------------------------------
// Trusted boundary: the two outside calls the marshaler makes.
// ---------------------------------------------------------------------------

/// The standard, padded base64 encoding of the bytes. Its value is pinned
/// only by the encoder below; contracts compose through this name.
pub uninterp spec fn base64_encoding(bytes: Seq<u8>) -> Seq<char>;

/// Relies on `base64::encode` (standard alphabet, padded): the result is a
/// function of the bytes alone, four characters for every started group of
/// three bytes. The length cap keeps the crate's output-size computation
/// from overflowing, where it would panic.
#[verifier::external_body]
fn base64_encode(bytes: &Vec<u8>) -> (r: String)
    requires
        bytes@.len() <= usize::MAX / 4,
    ensures
        r@ == base64_encoding(bytes@),
        r@.len() == 4 * ((bytes@.len() + 2) / 3),
{
    base64::encode(bytes)
}

/// Relies on `String::from_utf8`: it returns exactly the decoding of valid
/// UTF-8 bytes and fails on any other input, where the marshaler's lossy
/// policy takes the empty string instead.
#[verifier::external_body]
fn utf8_or_empty(bytes: Vec<u8>) -> (s: String)
    ensures
        valid_utf8(bytes@) ==> s@ == decode_utf8(bytes@),
        !valid_utf8(bytes@) ==> s@ == Seq::<char>::empty(),
{
    match String::from_utf8(bytes) {
        Ok(s) => s,
        Err(_) => String::new(),
    }
}

// ---------------------------------------------------------------------------
// Typed field values and the tag dispatch.
// ---------------------------------------------------------------------------

/// One raw column exactly as the backend emits it: a name, a type tag, and
/// an uninterpreted byte payload.
pub struct RawField {
    pub column: String,
    pub tag: u8,
    pub content: Vec<u8>,
}

/// Mathematical model of a [`RawField`].
pub struct RawFieldV {
    pub column: Seq<char>,
    pub tag: u8,
    pub content: Seq<u8>,
}

impl View for RawField {
    type V = RawFieldV;

    open spec fn view(&self) -> RawFieldV {
        RawFieldV { column: self.column@, tag: self.tag, content: self.content@ }
    }
}

/// One raw row: the backend's ordered field list.
pub struct RawRow {
    pub fields: Vec<RawField>,
}

impl View for RawRow {
    type V = Seq<RawFieldV>;

    open spec fn view(&self) -> Seq<RawFieldV> {
        self.fields@.map_values(|f: RawField| f@)
    }
}

/// A typed field value: exactly one variant per field. Floating-point
/// columns keep their validated decimal text; the boundary that serializes
/// a row turns that text into a number, so the gateway itself never computes
/// with floats.
#[derive(Debug, Clone, PartialEq, Eq)]
pub enum FieldContent {
    Int(i64),
    Float(String),
    Utf8String(String),
    Base64String(String),
    Absent,
}

/// Mathematical model of a [`FieldContent`].
pub enum FieldContentV {
    Int(i64),
    Float(Seq<char>),
    Utf8String(Seq<char>),
    Base64String(Seq<char>),
    Absent,
}

impl View for FieldContent {
    type V = FieldContentV;

    open spec fn view(&self) -> FieldContentV {
        match self {
            FieldContent::Int(i) => FieldContentV::Int(*i),
            FieldContent::Float(s) => FieldContentV::Float(s@),
            FieldContent::Utf8String(s) => FieldContentV::Utf8String(s@),
            FieldContent::Base64String(s) => FieldContentV::Base64String(s@),
            FieldContent::Absent => FieldContentV::Absent,
        }
    }
}

/// The UTF-8 text of the bytes, or the empty text when they are not valid
/// UTF-8 — the lossy decode the marshaler uses for text columns.
pub open spec fn utf8_or_empty_view(bytes: Seq<u8>) -> Seq<char> {
    if valid_utf8(bytes) {
        decode_utf8(bytes)
    } else {
        Seq::<char>::empty()
    }
}

/// The tag dispatch: tag 1 parses a signed integer, tag 2 keeps decimal
/// float text, tag 3 takes the bytes as (lossy) UTF-8 text, tag 4
/// base64-encodes them, and any other tag — or a failed numeric parse —
/// yields the absent value. Total over the whole tag domain.
pub open spec fn field_value_spec(tag: u8, raw: Seq<u8>) -> FieldContentV {
    if tag == 1 {
        match parse_i64_spec(raw) {
            Some(i) => FieldContentV::Int(i),
            None => FieldContentV::Absent,
        }
    } else if tag == 2 {
        if is_float_text(raw) {
            FieldContentV::Float(utf8_or_empty_view(raw))
        } else {
            FieldContentV::Absent
        }
    } else if tag == 3 {
        FieldContentV::Utf8String(utf8_or_empty_view(raw))
    } else if tag == 4 {
        FieldContentV::Base64String(base64_encoding(raw))
    } else {
        FieldContentV::Absent
    }
}

/// Converts one raw column into its typed value, by the tag dispatch.
pub fn marshal_field(tag: u8, content: Vec<u8>) -> (r: FieldContent)
    requires
        content@.len() <= usize::MAX / 4,
    ensures
        r@ == field_value_spec(tag, content@),
{
    if tag == 1 {
        match parse_i64(content.as_slice()) {
            Some(i) => FieldContent::Int(i),
            None => FieldContent::Absent,
        }
    } else if tag == 2 {
        if float_text_check(content.as_slice()) {
            FieldContent::Float(utf8_or_empty(content))
        } else {
            FieldContent::Absent
        }
    } else if tag == 3 {
        FieldContent::Utf8String(utf8_or_empty(content))
    } else if tag == 4 {
        FieldContent::Base64String(base64_encode(&content))
    } else {
        FieldContent::Absent
    }
}

// ---------------------------------------------------------------------------
// Typed rows: ordered, with unique column names and last-write-wins on
// duplicates, matching map semantics while preserving emission order.
// ---------------------------------------------------------------------------

/// One marshaled column: its name and its typed value.
pub struct NewField {
    pub column: String,
    pub content: FieldContent,
}

/// Mathematical model of a [`NewField`].
pub struct NewFieldV {
    pub column: Seq<char>,
    pub content: FieldContentV,
}

impl View for NewField {
    type V = NewFieldV;

    open spec fn view(&self) -> NewFieldV {
        NewFieldV { column: self.column@, content: self.content@ }
    }
}

/// One marshaled row: its columns in emission order, names unique.
pub struct NewRow {
    pub fields: Vec<NewField>,
}

impl View for NewRow {
    type V = Seq<NewFieldV>;

    open spec fn view(&self) -> Seq<NewFieldV> {
        self.fields@.map_values(|f: NewField| f@)
    }
}

/// No two fields share a column name.
pub open spec fn columns_unique(fields: Seq<NewFieldV>) -> bool {
    forall|i: int, j: int| 0 <= i < j < fields.len()
        ==> (#[trigger] fields[i]).column != (#[trigger] fields[j]).column
}

/// Index of the first field with this column name, or -1 when none has it.
pub open spec fn col_index(fields: Seq<NewFieldV>, col: Seq<char>) -> int
    decreases fields.len(),
{
    if fields.len() == 0 {
        -1
    } else if fields[0].column == col {
        0
    } else {
        let r = col_index(fields.drop_first(), col);
        if r == -1 {
            -1
        } else {
            r + 1
        }
    }
}

/// Map semantics over an ordered row: a new column is appended, a repeated
/// column keeps its position and takes the new value (last write wins).
pub open spec fn upsert_spec(fields: Seq<NewFieldV>, f: NewFieldV) -> Seq<NewFieldV> {
    let i = col_index(fields, f.column);
    if i == -1 {
        fields.push(f)
    } else {
        fields.update(i, f)
    }
}

proof fn lemma_col_index_props(fields: Seq<NewFieldV>, col: Seq<char>)
    ensures
        ({
            let i = col_index(fields, col);
            &&& (i == -1 ==> forall|j: int| 0 <= j < fields.len()
                ==> (#[trigger] fields[j]).column != col)
            &&& (i != -1 ==> 0 <= i < fields.len() && fields[i].column == col
                && (forall|j: int| 0 <= j < i ==> (#[trigger] fields[j]).column != col))
        }),
    decreases fields.len(),
{
    if fields.len() > 0 && fields[0].column != col {
        lemma_col_index_props(fields.drop_first(), col);
        assert forall|j: int| 1 <= j < fields.len() implies fields.drop_first()[j - 1]
            == fields[j] by {}
    }
}

/// Upserting keeps column names unique.
proof fn lemma_upsert_unique(fields: Seq<NewFieldV>, f: NewFieldV)
    requires
        columns_unique(fields),
    ensures
        columns_unique(upsert_spec(fields, f)),
{
    lemma_col_index_props(fields, f.column);
    let i = col_index(fields, f.column);
    if i == -1 {
        let r = fields.push(f);
        assert forall|a: int, b: int| 0 <= a < b < r.len() implies r[a].column != r[b].column by {
            if b < fields.len() {
            } else {
                assert(r[b] == f);
                assert(r[a] == fields[a]);
            }
        }
    } else {
        let r = fields.update(i, f);
        assert forall|a: int, b: int| 0 <= a < b < r.len() implies r[a].column != r[b].column by {
            if a != i && b != i {
                assert(r[a] == fields[a]);
                assert(r[b] == fields[b]);
            } else if a == i {
                assert(r[a].column == fields[i].column);
                assert(r[b] == fields[b]);
            } else {
                assert(r[b].column == fields[i].column);
                assert(r[a] == fields[a]);
            }
        }
    }
}

impl NewRow {
    /// The row's columns are unique.
    pub open spec fn wf(self) -> bool {
        columns_unique(self@)
    }

    /// The empty row.
    pub fn empty() -> (row: Self)
        ensures
            row@ == Seq::<NewFieldV>::empty(),
            row.wf(),
    {
        let row = NewRow { fields: Vec::new() };
        proof {
            assert(row@ =~= Seq::<NewFieldV>::empty());
        }
        row
    }

    /// Inserts one column with map semantics: a repeated name keeps its
    /// position and takes the new value; a new name is appended.
    #[verifier::loop_isolation(false)]
    pub fn upsert(&mut self, column: String, content: FieldContent)
        ensures
            final(self)@ == upsert_spec(
                old(self)@,
                NewFieldV { column: column@, content: content@ },
            ),
            old(self).wf() ==> final(self).wf(),
    {
        let ghost fv = NewFieldV { column: column@, content: content@ };
        proof {
            if old(self).wf() {
                lemma_upsert_unique(old(self)@, fv);
            }
        }
        let n = self.fields.len();
        let mut i: usize = 0;
        while i < n
            invariant
                0 <= i <= n,
                n == self.fields@.len(),
                self == old(self),
                forall|j: int| 0 <= j < i ==> (#[trigger] self@[j]).column != column@,
            decreases n - i,
        {
            let hit = {
                let fi = &self.fields[i];
                fi.column == column
            };
            if hit {
                proof {
                    assert(self@[i as int] == self.fields@[i as int]@);
                    lemma_col_index_hit(self@, column@, i as int);
                }
                let ghost before = self.fields@;
                let mut f = self.fields.remove(i);
                f.content = content;
                let ghost fsnap = f;
                self.fields.insert(i, f);
                proof {
                    assert(self.fields@ =~= before.update(i as int, fsnap));
                    assert(fsnap@ == NewFieldV { column: column@, content: content@ });
                    let target = upsert_spec(old(self)@, fv);
                    assert(target == old(self)@.update(i as int, fv));
                    assert forall|j: int| 0 <= j < self@.len() implies self@[j] == target[j] by {
                        assert(self@[j] == self.fields@[j]@);
                        if j != i {
                            assert(self.fields@[j] == before[j]);
                        }
                    }
                    assert(self@ =~= target);
                }
                return;
            }
            i = i + 1;
        }
        proof {
            lemma_col_index_miss(old(self)@, column@);
        }
        let ghost before = self.fields@;
        let ghost fsnap = NewField { column, content };
        self.fields.push(NewField { column, content });
        proof {
            assert(self.fields@ == before.push(fsnap));
            assert(fsnap@ == fv);
            let target = upsert_spec(old(self)@, fv);
            assert(target == old(self)@.push(fv));
            assert forall|j: int| 0 <= j < self@.len() implies self@[j] == target[j] by {
                assert(self@[j] == self.fields@[j]@);
                if j < before.len() {
                    assert(self.fields@[j] == before[j]);
                }
            }
            assert(self@ =~= target);
        }
    }
}

proof fn lemma_col_index_hit(fields: Seq<NewFieldV>, col: Seq<char>, i: int)
    requires
        0 <= i < fields.len(),
        fields[i].column == col,
        forall|j: int| 0 <= j < i ==> (#[trigger] fields[j]).column != col,
    ensures
        col_index(fields, col) == i,
    decreases i,
{
    if i > 0 {
        assert(fields[0].column != col);
        assert forall|j: int| 0 <= j < i - 1 implies (#[trigger] fields.drop_first()[j]).column
            != col by {
            assert(fields.drop_first()[j] == fields[j + 1]);
        }
        assert(fields.drop_first()[i - 1] == fields[i]);
        lemma_col_index_hit(fields.drop_first(), col, i - 1);
    }
}

proof fn lemma_col_index_miss(fields: Seq<NewFieldV>, col: Seq<char>)
    requires
        forall|j: int| 0 <= j < fields.len() ==> (#[trigger] fields[j]).column != col,
    ensures
        col_index(fields, col) == -1,
    decreases fields.len(),
{
    if fields.len() > 0 {
        assert forall|j: int| 0 <= j < fields.len() - 1 implies (#[trigger] fields.drop_first()[
            j
        ]).column != col by {
            assert(fields.drop_first()[j] == fields[j + 1]);
        }
        lemma_col_index_miss(fields.drop_first(), col);
    }
}

/// The marshaled row a raw field list folds to, left to right.
pub open spec fn marshal_row_spec(fields: Seq<RawFieldV>) -> Seq<NewFieldV>
    decreases fields.len(),
{
    if fields.len() == 0 {
        Seq::<NewFieldV>::empty()
    } else {
        let prev = marshal_row_spec(fields.drop_last());
        let f = fields.last();
        upsert_spec(prev, NewFieldV { column: f.column, content: field_value_spec(f.tag, f.content) })
    }
}

/// Every field's payload is small enough for its base64 encoding's length
/// computation to stay within the machine's address range.
pub open spec fn row_content_fits(fields: Seq<RawFieldV>) -> bool {
    forall|i: int| 0 <= i < fields.len() ==> (#[trigger] fields[i]).content.len() <= usize::MAX / 4
}

/// Converts one raw row: every field through the tag dispatch, in emission
/// order, with repeated column names collapsing to the last value.
pub fn marshal_row(raw: RawRow) -> (row: NewRow)
    requires
        row_content_fits(raw@),
    ensures
        row@ == marshal_row_spec(raw@),
        row.wf(),
{
    let ghost orig = raw@;
    let mut fields = raw.fields;
    let mut row = NewRow::empty();
    let ghost mut k: int = 0;
    proof {
        assert(orig.take(0) =~= Seq::<RawFieldV>::empty());
        assert(fields@.map_values(|f: RawField| f@) =~= orig.skip(0));
    }
    while fields.len() > 0
        invariant
            0 <= k <= orig.len(),
            fields@.map_values(|f: RawField| f@) == orig.skip(k),
            fields@.len() == orig.len() - k,
            row@ == marshal_row_spec(orig.take(k)),
            row.wf(),
            row_content_fits(orig),
        decreases fields@.len(),
    {
        let ghost prev = fields@;
        let f = fields.remove(0);
        proof {
            assert(prev.map_values(|g: RawField| g@)[0] == prev[0]@);
            assert(orig.skip(k)[0] == orig[k]);
            assert(f@ == orig[k]);
            assert(fields@ =~= prev.drop_first());
            let m = fields@.map_values(|g: RawField| g@);
            assert forall|j: int| 0 <= j < m.len() implies #[trigger] m[j] == orig.skip(k + 1)[j] by {
                assert(m[j] == fields@[j]@);
                assert(fields@[j] == prev[j + 1]);
                assert(prev.map_values(|g: RawField| g@)[j + 1] == prev[j + 1]@);
                assert(orig.skip(k)[j + 1] == orig[k + 1 + j]);
                assert(orig.skip(k + 1)[j] == orig[k + 1 + j]);
            }
            assert(fields@.map_values(|g: RawField| g@) =~= orig.skip(k + 1));
        }
        let value = marshal_field(f.tag, f.content);
        row.upsert(f.column, value);
        proof {
            assert(orig.take(k + 1).drop_last() =~= orig.take(k));
            assert(orig.take(k + 1).last() == orig[k]);
            k = k + 1;
        }
    }
    proof {
        assert(orig.take(k) =~= orig);
    }
    row
}

/// Converts a whole query result, one row at a time, preserving the
/// backend's row order.
pub fn marshal_rows(raws: Vec<RawRow>) -> (rows: Vec<NewRow>)
    requires
        forall|i: int| 0 <= i < raws@.len() ==> row_content_fits((#[trigger] raws@[i])@),
    ensures
        rows@.len() == raws@.len(),
        forall|i: int| 0 <= i < rows@.len() ==> (#[trigger] rows@[i])@ == marshal_row_spec(
            raws@[i]@,
        ) && rows@[i].wf(),
{
    let ghost origs = raws@;
    let mut rs = raws;
    let mut rows: Vec<NewRow> = Vec::new();
    proof {
        assert(rs@ =~= origs.skip(0));
    }
    while rs.len() > 0
        invariant
            rows@.len() <= origs.len(),
            rs@.len() == origs.len() - rows@.len(),
            rs@ == origs.skip(rows@.len() as int),
            forall|i: int| 0 <= i < origs.len() ==> row_content_fits((#[trigger] origs[i])@),
            forall|i: int| 0 <= i < rows@.len() ==> (#[trigger] rows@[i])@ == marshal_row_spec(
                origs[i]@,
            ) && rows@[i].wf(),
        decreases rs@.len(),
    {
        let ghost k = rows@.len() as int;
        let ghost prev = rs@;
        let raw = rs.remove(0);
        proof {
            assert(raw == origs.skip(k)[0]);
            assert(origs.skip(k)[0] == origs[k]);
            assert forall|j: int| 0 <= j < rs@.len() implies #[trigger] rs@[j] == origs.skip(
                k + 1,
            )[j] by {
                assert(rs@[j] == prev[j + 1]);
                assert(prev[j + 1] == origs.skip(k)[j + 1]);
                assert(origs.skip(k)[j + 1] == origs[k + 1 + j]);
                assert(origs.skip(k + 1)[j] == origs[k + 1 + j]);
            }
            assert(rs@ =~= origs.skip(k + 1));
        }
        let row = marshal_row(raw);
        rows.push(row);
    }
    rows
}

} // verus!
