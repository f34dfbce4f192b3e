//! Transaction output references and their `txid:vout` text form.
use vstd::prelude::*;
use vstd::string::StrSliceExecFns;
use vstd::string::StringExecFns;

use crate::errors::{DomainError, ErrorModel};
use crate::ids::Text;
use crate::sorting::Ordered;
use crate::text::{
    chars_lt, chars_of, decimal_text, lex_lt, lemma_decimal_text, lemma_parse_decimal_u32, parse_u32_chars,
    parse_u32_text, push_decimal,
};

verus! {

/// A reference to a transaction output.
#[derive(Debug, Clone, PartialEq, Eq, PartialOrd, Ord, Hash)]
pub struct OutPoint {
    pub txid: String,
    pub vout: u32,
}

/// The value of an `OutPoint`.
pub struct OutPointModel {
    pub txid: Seq<char>,
    pub vout: u32,
}

impl View for OutPoint {
    type V = OutPointModel;

    open spec fn view(&self) -> OutPointModel {
        OutPointModel { txid: self.txid@, vout: self.vout }
    }
}

/// The `txid:vout` text of an output reference.
pub open spec fn outpoint_text(o: OutPointModel) -> Seq<char> {
    o.txid + seq![':'] + decimal_text(o.vout as nat)
}

/// The position of the last `:` in `s`.
pub open spec fn last_colon(s: Seq<char>) -> Option<int>
    decreases s.len(),
{
    if s.len() == 0 {
        None
    } else if s.last() == ':' {
        Some(s.len() - 1)
    } else {
        last_colon(s.drop_last())
    }
}

/// Reading `txid:vout`: the last colon separates an opaque transaction ID from a
/// `u32` output index.
pub open spec fn parse_outpoint_text(s: Seq<char>) -> Option<OutPointModel> {
    match last_colon(s) {
        None => None,
        Some(k) => match parse_u32_text(s.skip(k + 1)) {
            None => None,
            Some(vout) => Some(OutPointModel { txid: s.take(k), vout }),
        },
    }
}

/// `last_colon` finds the last `:`, and none when the text has no `:`.
pub proof fn lemma_last_colon(s: Seq<char>)
    ensures
        last_colon(s) is None <==> !s.contains(':'),
        last_colon(s) matches Some(k) ==> 0 <= k < s.len() && s[k] == ':' && forall|j: int|
            k < j < s.len() ==> s[j] != ':',
    decreases s.len(),
{
    if s.len() > 0 {
        lemma_last_colon(s.drop_last());
        if s.last() != ':' {
            if s.contains(':') {
                let i = choose|i: int| 0 <= i < s.len() && s[i] == ':';
                assert(s.drop_last()[i] == ':');
            }
            if s.drop_last().contains(':') {
                let i = choose|i: int| 0 <= i < s.drop_last().len() && s.drop_last()[i] == ':';
                assert(s[i] == ':');
            }
            if let Some(k) = last_colon(s) {
                assert forall|j: int| k < j < s.len() implies s[j] != ':' by {
                    if j < s.len() - 1 {
                        assert(s.drop_last()[j] == s[j]);
                    }
                }
            }
        } else {
            assert(s[s.len() - 1] == ':');
        }
    }
}

/// Reading an output reference fails exactly when the text has no `:`, or
/// what follows its last `:` is not a `u32`.
pub proof fn lemma_outpoint_parse_fails_exactly(s: Seq<char>)
    ensures
        parse_outpoint_text(s) is None <==> (!s.contains(':') || parse_u32_text(
            s.skip(last_colon(s)->Some_0 + 1),
        ) is None),
{
    lemma_last_colon(s);
}

/// Text of a string as written by `{:?}`: quoted, with quotes, backslashes and
/// the common control characters escaped.
pub open spec fn debug_quoted(s: Seq<char>) -> Seq<char> {
    seq!['"'] + debug_escaped(s) + seq!['"']
}

pub open spec fn escape_char(c: char) -> Seq<char> {
    if c == '"' {
        seq!['\\', '"']
    } else if c == '\\' {
        seq!['\\', '\\']
    } else if c == '\n' {
        seq!['\\', 'n']
    } else if c == '\r' {
        seq!['\\', 'r']
    } else if c == '\t' {
        seq!['\\', 't']
    } else if c == '\0' {
        seq!['\\', '0']
    } else {
        seq![c]
    }
}

pub open spec fn debug_escaped(s: Seq<char>) -> Seq<char>
    decreases s.len(),
{
    if s.len() == 0 {
        Seq::empty()
    } else {
        debug_escaped(s.drop_last()) + escape_char(s.last())
    }
}

/// The reason given when text is not an output reference.
pub open spec fn invalid_outpoint_reason(s: Seq<char>) -> Seq<char> {
    "invalid outpoint "@ + debug_quoted(s)
        + ": expected a transaction ID followed by ':' and a u32 output index"@
}

proof fn lemma_last_colon_suffix(a: Seq<char>, b: Seq<char>)
    requires
        !b.contains(':'),
    ensures
        last_colon(a + seq![':'] + b) == Some(a.len() as int),
    decreases b.len(),
{
    let s = a + seq![':'] + b;
    if b.len() == 0 {
        assert(s.last() == ':');
    } else {
        assert(s.last() == b.last());
        assert(b.contains(b.last()) ==> b.last() != ':') by {
            assert(b[b.len() - 1] == b.last());
        }
        assert(b.last() != ':');
        assert(!b.drop_last().contains(':')) by {
            if b.drop_last().contains(':') {
                let i = choose|i: int| 0 <= i < b.drop_last().len() && b.drop_last()[i] == ':';
                assert(b[i] == ':');
            }
        }
        lemma_last_colon_suffix(a, b.drop_last());
        assert(s.drop_last() =~= a + seq![':'] + b.drop_last());
    }
}

/// Rendering then reading an output reference gives it back.
pub proof fn lemma_outpoint_text_round_trip(o: OutPointModel)
    ensures
        parse_outpoint_text(outpoint_text(o)) == Some(o),
{
    let digits = decimal_text(o.vout as nat);
    lemma_decimal_text(o.vout as nat);
    lemma_last_colon_suffix(o.txid, digits);
    let s = outpoint_text(o);
    let k = o.txid.len() as int;
    assert(s.skip(k + 1) =~= digits);
    assert(s.take(k) =~= o.txid);
    lemma_parse_decimal_u32(o.vout);
}

impl OutPoint {
    pub fn new<T: Text>(txid: T, vout: u32) -> (r: Self)
        ensures
            r@ == (OutPointModel { txid: txid.text(), vout }),
    {
        OutPoint { txid: txid.into_text(), vout }
    }

    /// A copy equal to this one.
    pub fn dup(&self) -> (r: Self)
        ensures
            r == *self,
            r@ == self@,
    {
        OutPoint { txid: self.txid.clone(), vout: self.vout }
    }

    /// Whether two references name the same output.
    pub fn same(&self, other: &Self) -> (r: bool)
        ensures
            r == (self@ == other@),
    {
        self.txid == other.txid && self.vout == other.vout
    }

    /// The `txid:vout` text.
    pub fn to_string(&self) -> (r: String)
        ensures
            r@ == outpoint_text(self@),
    {
        let mut s = self.txid.clone();
        s.append(":");
        push_decimal(&mut s, self.vout as u128);
        proof {
            reveal_strlit(":");
        }
        assert(s@ =~= outpoint_text(self@));
        s
    }

    /// Reads `txid:vout`, splitting at the last colon and preserving the opaque
    /// transaction ID.
    pub fn parse(value: &str) -> (r: Result<OutPoint, DomainError>)
        ensures
            match parse_outpoint_text(value@) {
                Some(o) => r is Ok && r->Ok_0@ == o,
                None => r is Err && r->Err_0@ == (ErrorModel::InvalidRequest {
                    reason: invalid_outpoint_reason(value@),
                }),
            },
    {
        let chars = chars_of(value);
        let n = chars.len();
        let i = find_last_colon(&chars);
        if i == 0 {
            return Err(invalid_outpoint(value));
        }
        let k = i - 1;
        match parse_u32_chars(&chars, k + 1, n) {
            None => {
                assert(chars@.subrange(k + 1, n as int) =~= value@.skip(k + 1));
                Err(invalid_outpoint(value))
            },
            Some(vout) => {
                assert(chars@.subrange(k + 1, n as int) =~= value@.skip(k + 1));
                let txid = value.substring_char(0, k).to_owned();
                assert(txid@ =~= value@.take(k as int));
                Ok(OutPoint { txid, vout })
            },
        }
    }
}

/// One past the position of the last colon, or zero when there is none.
fn find_last_colon(chars: &Vec<char>) -> (r: usize)
    ensures
        r <= chars@.len(),
        r == 0 ==> last_colon(chars@) is None,
        r > 0 ==> last_colon(chars@) == Some(r - 1),
{
    let mut i: usize = chars.len();
    assert(chars@.take(i as int) =~= chars@);
    while i > 0 && chars[i - 1] != ':'
        invariant
            i <= chars@.len(),
            last_colon(chars@) == last_colon(chars@.take(i as int)),
        decreases i,
    {
        assert(chars@.take(i as int).drop_last() =~= chars@.take(i - 1));
        i = i - 1;
    }
    if i > 0 {
        assert(chars@.take(i as int).last() == ':');
    }
    i
}

/// The error for text that is not an output reference.
fn invalid_outpoint(value: &str) -> (r: DomainError)
    ensures
        r@ == (ErrorModel::InvalidRequest { reason: invalid_outpoint_reason(value@) }),
{
    let mut reason = String::from_str("invalid outpoint ");
    push_debug_quoted(&mut reason, value);
    reason.append(": expected a transaction ID followed by ':' and a u32 output index");
    assert(reason@ =~= invalid_outpoint_reason(value@));
    DomainError::InvalidRequest { reason }
}

/// The escape text of a character that `{:?}` escapes.
fn escape_str(c: char) -> (r: Option<&'static str>)
    ensures
        match r {
            Some(e) => e@ == escape_char(c) && escape_char(c) != seq![c],
            None => escape_char(c) == seq![c],
        },
{
    proof {
        reveal_strlit("\\\"");
        reveal_strlit("\\\\");
        reveal_strlit("\\n");
        reveal_strlit("\\r");
        reveal_strlit("\\t");
        reveal_strlit("\\0");
    }
    if c == '"' {
        assert(seq!['\\', '"'][0] != c);
        Some("\\\"")
    } else if c == '\\' {
        assert(seq!['\\', '\\'].len() != 1);
        Some("\\\\")
    } else if c == '\n' {
        assert(seq!['\\', 'n'].len() != 1);
        Some("\\n")
    } else if c == '\r' {
        assert(seq!['\\', 'r'].len() != 1);
        Some("\\r")
    } else if c == '\t' {
        assert(seq!['\\', 't'].len() != 1);
        Some("\\t")
    } else if c == '\0' {
        assert(seq!['\\', '0'].len() != 1);
        Some("\\0")
    } else {
        None
    }
}

/// Appends `value` as `{:?}` writes a string.
pub fn push_debug_quoted(out: &mut String, value: &str)
    ensures
        final(out)@ == old(out)@ + debug_quoted(value@),
{
    proof {
        reveal_strlit("\"");
    }
    out.append("\"");
    let n = value.unicode_len();
    let mut start: usize = 0;
    let mut i: usize = 0;
    while i < n
        invariant
            n == value@.len(),
            start <= i <= n,
            out@ == old(out)@ + seq!['"'] + debug_escaped(value@.take(start as int)),
            debug_escaped(value@.take(i as int)) == debug_escaped(value@.take(start as int))
                + value@.subrange(start as int, i as int),
        decreases n - i,
    {
        let c = value.get_char(i);
        let ghost take_i = value@.take(i as int);
        assert(value@.take(i + 1) =~= take_i.push(c));
        assert(value@.take(i + 1).drop_last() =~= take_i);
        assert(debug_escaped(value@.take(i + 1)) == debug_escaped(take_i) + escape_char(c));
        match escape_str(c) {
            Some(e) => {
                let piece = value.substring_char(start, i);
                out.append(piece);
                out.append(e);
                i = i + 1;
                start = i;
                assert(value@.subrange(start as int, i as int) =~= Seq::<char>::empty());
            },
            None => {
                i = i + 1;
                assert(value@.subrange(start as int, i as int) =~= value@.subrange(
                    start as int,
                    i - 1,
                ).push(c));
            },
        }
    }
    let piece = value.substring_char(start, n);
    out.append(piece);
    out.append("\"");
    assert(value@.take(n as int) =~= value@);
    assert(final(out)@ =~= old(out)@ + debug_quoted(value@));
}

impl core::str::FromStr for OutPoint {
    type Err = DomainError;

    /// Parses the last colon as the separator and preserves the opaque transaction ID.
    fn from_str(value: &str) -> (r: Result<Self, Self::Err>)
        ensures
            match parse_outpoint_text(value@) {
                Some(o) => r is Ok && r->Ok_0@ == o,
                None => r is Err && r->Err_0@ == (ErrorModel::InvalidRequest {
                    reason: invalid_outpoint_reason(value@),
                }),
            },
    {
        OutPoint::parse(value)
    }
}


/// Output references sort by their `txid:vout` text.
impl Ordered for OutPoint {
    open spec fn before(a: OutPoint, b: OutPoint) -> bool {
        lex_lt(outpoint_text(a@), outpoint_text(b@))
    }

    fn is_before(&self, other: &Self) -> (r: bool) {
        let a = chars_of(self.to_string().as_str());
        let b = chars_of(other.to_string().as_str());
        chars_lt(&a, &b)
    }
}

} // verus!
