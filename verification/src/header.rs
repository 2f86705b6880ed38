//! Header names, header values and the ordered list of a message's headers.

use crate::seq::reversed;
use vstd::prelude::*;
use vstd::string::StringSliceAdditionalSpecFns;

verus! {

/// The header names that the connection layer itself reads or writes.
#[derive(Clone, Copy, Debug, PartialEq, Eq, Structural)]
pub enum StandardHeader {
    Connection,
    ContentLength,
    ContentType,
    Date,
    Origin,
    SecWebsocketAccept,
    SecWebsocketKey,
    SecWebsocketProtocol,
    SecWebsocketVersion,
    TransferEncoding,
    Upgrade,
}

/// The name of a header: one of the standard names, or any other name as
/// lower-case bytes.
#[derive(Debug, PartialEq, Eq)]
pub enum HeaderName {
    Standard(StandardHeader),
    Custom(Vec<u8>),
}

/// The model of a header name.
pub enum Name {
    Standard(StandardHeader),
    Custom(Seq<u8>),
}

impl View for HeaderName {
    type V = Name;

    open spec fn view(&self) -> Name {
        match self {
            HeaderName::Standard(s) => Name::Standard(*s),
            HeaderName::Custom(b) => Name::Custom(b@),
        }
    }
}

/// A header line in the model: its name and the bytes of its value.
pub type Line = (Name, Seq<u8>);

/// The line of a standard header.
pub open spec fn line(name: StandardHeader, value: Seq<u8>) -> Line {
    (Name::Standard(name), value)
}

/// Whether a byte may stand in a header value that is read as text: printable
/// ASCII or a tab.
pub open spec fn spec_is_visible_ascii(b: u8) -> bool {
    (32 <= b < 127) || b == 9
}

/// Whether a byte may stand in a header value: anything but control bytes,
/// a tab excepted.
pub open spec fn spec_is_value_byte(b: u8) -> bool {
    (b >= 32 && b != 127) || b == 9
}

/// Whether the bytes can be read as the text of a header value.
pub open spec fn is_text(bytes: Seq<u8>) -> bool {
    forall|i: int| 0 <= i < bytes.len() ==> spec_is_visible_ascii(#[trigger] bytes[i])
}

/// Whether the bytes can be the value of a header.
pub open spec fn is_value(bytes: Seq<u8>) -> bool {
    forall|i: int| 0 <= i < bytes.len() ==> spec_is_value_byte(#[trigger] bytes[i])
}

/// The lower-case form of an ASCII byte; other bytes stay.
pub open spec fn spec_lower(b: u8) -> u8 {
    if 65 <= b <= 90 {
        (b + 32) as u8
    } else {
        b
    }
}

/// The bytes with every ASCII letter in lower case.
pub open spec fn lowered(bytes: Seq<u8>) -> Seq<u8> {
    Seq::new(bytes.len(), |i: int| spec_lower(bytes[i]))
}

/// Whether `needle` stands in `hay` at index `at`.
pub open spec fn occurs_at(hay: Seq<u8>, needle: Seq<u8>, at: int) -> bool {
    0 <= at && at + needle.len() <= hay.len() && hay.subrange(at, at + needle.len()) == needle
}

/// Whether `needle` stands somewhere in `hay`.
pub open spec fn occurs(hay: Seq<u8>, needle: Seq<u8>) -> bool {
    exists|at: int| occurs_at(hay, needle, at)
}

/// The decimal digits of a number, most significant first.
pub open spec fn digits(n: nat) -> Seq<u8>
    decreases n,
{
    if n < 10 {
        seq![(48 + n) as u8]
    } else {
        digits(n / 10).push((48 + n % 10) as u8)
    }
}

/// The lines of `lines` whose name is not `name`, in their order.
pub open spec fn without(lines: Seq<Line>, name: Name) -> Seq<Line>
    decreases lines.len(),
{
    if lines.len() == 0 {
        lines
    } else if lines.last().0 == name {
        without(lines.drop_last(), name)
    } else {
        without(lines.drop_last(), name).push(lines.last())
    }
}

/// The value of the first line of `lines` whose name is `name`.
pub open spec fn first_value(lines: Seq<Line>, name: Name) -> Option<Seq<u8>>
    decreases lines.len(),
{
    if lines.len() == 0 {
        None
    } else if first_value(lines.drop_last(), name) is Some {
        first_value(lines.drop_last(), name)
    } else if lines.last().0 == name {
        Some(lines.last().1)
    } else {
        None
    }
}

/// The number of lines of `lines` whose name is `name`.
pub open spec fn count(lines: Seq<Line>, name: Name) -> nat
    decreases lines.len(),
{
    if lines.len() == 0 {
        0
    } else if lines.last().0 == name {
        count(lines.drop_last(), name) + 1
    } else {
        count(lines.drop_last(), name)
    }
}

/// Tells whether a byte may stand in a header value that is read as text.
pub fn is_visible_ascii(b: u8) -> (r: bool)
    ensures
        r == spec_is_visible_ascii(b),
{
    (b >= 32 && b < 127) || b == 9
}

/// Tells whether a byte may stand in a header value.
pub fn is_value_byte(b: u8) -> (r: bool)
    ensures
        r == spec_is_value_byte(b),
{
    (b >= 32 && b != 127) || b == 9
}

/// The lower-case form of an ASCII byte.
pub fn lower(b: u8) -> (r: u8)
    ensures
        r == spec_lower(b),
{
    if b >= 65 && b <= 90 {
        b + 32
    } else {
        b
    }
}

/// Tells whether the bytes can be read as the text of a header value.
pub fn bytes_are_text(bytes: &[u8]) -> (r: bool)
    ensures
        r == is_text(bytes@),
{
    let mut i: usize = 0;
    while i < bytes.len()
        invariant
            i <= bytes.len(),
            forall|k: int| 0 <= k < i ==> spec_is_visible_ascii(#[trigger] bytes@[k]),
        decreases bytes.len() - i,
    {
        if !is_visible_ascii(bytes[i]) {
            return false;
        }
        i = i + 1;
    }
    true
}

/// Tells whether the bytes can be the value of a header.
pub fn bytes_are_value(bytes: &[u8]) -> (r: bool)
    ensures
        r == is_value(bytes@),
{
    let mut i: usize = 0;
    while i < bytes.len()
        invariant
            i <= bytes.len(),
            forall|k: int| 0 <= k < i ==> spec_is_value_byte(#[trigger] bytes@[k]),
        decreases bytes.len() - i,
    {
        if !is_value_byte(bytes[i]) {
            return false;
        }
        i = i + 1;
    }
    true
}

/// Copies a slice of bytes.
pub fn copy_bytes(bytes: &[u8]) -> (r: Vec<u8>)
    ensures
        r@ == bytes@,
{
    let mut out: Vec<u8> = Vec::new();
    let mut i: usize = 0;
    while i < bytes.len()
        invariant
            i <= bytes.len(),
            out@ == bytes@.take(i as int),
        decreases bytes.len() - i,
    {
        out.push(bytes[i]);
        proof {
            assert(bytes@.take(i + 1) =~= bytes@.take(i as int).push(bytes@[i as int]));
        }
        i = i + 1;
    }
    proof {
        assert(bytes@.take(i as int) =~= bytes@);
    }
    out
}

/// The bytes of a string.
pub fn str_bytes(s: &str) -> (r: Vec<u8>)
    ensures
        r@ == s.spec_bytes(),
{
    copy_bytes(s.as_bytes())
}

/// Tells whether two slices hold the same bytes.
pub fn bytes_eq(a: &[u8], b: &[u8]) -> (r: bool)
    ensures
        r == (a@ == b@),
{
    if a.len() != b.len() {
        return false;
    }
    let mut i: usize = 0;
    while i < a.len()
        invariant
            i <= a.len(),
            a.len() == b.len(),
            a@.take(i as int) == b@.take(i as int),
        decreases a.len() - i,
    {
        if a[i] != b[i] {
            return false;
        }
        proof {
            assert(a@.take(i + 1) =~= a@.take(i as int).push(a@[i as int]));
            assert(b@.take(i + 1) =~= b@.take(i as int).push(b@[i as int]));
        }
        i = i + 1;
    }
    proof {
        assert(a@.take(i as int) =~= a@);
        assert(b@.take(i as int) =~= b@);
    }
    true
}

/// Tells whether `needle` stands in `hay` at index `at`, letters of `hay`
/// taken in lower case.
fn lowered_occurs_at(hay: &[u8], needle: &[u8], at: usize) -> (r: bool)
    requires
        at + needle.len() <= hay.len(),
    ensures
        r == occurs_at(lowered(hay@), needle@, at as int),
{
    let mut j: usize = 0;
    while j < needle.len()
        invariant
            j <= needle.len(),
            at + needle.len() <= hay.len(),
            forall|k: int| 0 <= k < j ==> spec_lower(#[trigger] hay@[at + k]) == needle@[k],
        decreases needle.len() - j,
    {
        if lower(hay[at + j]) != needle[j] {
            proof {
                let sub = lowered(hay@).subrange(at as int, at + needle.len());
                assert(sub[j as int] == spec_lower(hay@[at + j]));
            }
            return false;
        }
        j = j + 1;
    }
    proof {
        let sub = lowered(hay@).subrange(at as int, at + needle.len());
        assert forall|k: int| 0 <= k < needle@.len() implies sub[k] == needle@[k] by {
            assert(spec_lower(hay@[at + k]) == needle@[k]);
        }
        assert(sub =~= needle@);
    }
    true
}

/// Tells whether `needle` stands somewhere in `hay` once the letters of `hay`
/// are taken in lower case.
pub fn contains_lowered(hay: &[u8], needle: &[u8]) -> (r: bool)
    ensures
        r == occurs(lowered(hay@), needle@),
{
    if needle.len() > hay.len() {
        proof {
            assert forall|at: int| !occurs_at(lowered(hay@), needle@, at) by {}
        }
        return false;
    }
    let last: usize = hay.len() - needle.len();
    let mut at: usize = 0;
    loop
        invariant
            last == hay.len() - needle.len(),
            at <= last,
            forall|k: int| 0 <= k < at ==> !occurs_at(lowered(hay@), needle@, k),
        decreases last - at,
    {
        if lowered_occurs_at(hay, needle, at) {
            return true;
        }
        if at == last {
            proof {
                assert forall|k: int| !occurs_at(lowered(hay@), needle@, k) by {}
            }
            return false;
        }
        at = at + 1;
    }
}

/// Writes a number in decimal digits.
pub fn decimal(n: u64) -> (r: Vec<u8>)
    ensures
        r@ == digits(n as nat),
{
    let mut rev: Vec<u8> = Vec::new();
    let mut m: u64 = n;
    while m >= 10
        invariant
            forall|tail: Seq<u8>| #[trigger] (digits(m as nat) + rev@.reverse() + tail) == digits(n as nat) + tail,
        decreases m,
    {
        let d: u8 = (m % 10) as u8;
        proof {
            let ghost_rev = rev@.push((48 + d) as u8);
            assert forall|tail: Seq<u8>| #[trigger] (digits((m / 10) as nat) + ghost_rev.reverse() + tail) == digits(n as nat) + tail by {
                assert(digits(m as nat) == digits((m / 10) as nat).push((48 + d) as u8));
                assert(ghost_rev.reverse() =~= seq![(48 + d) as u8] + rev@.reverse());
                assert(digits((m / 10) as nat) + ghost_rev.reverse() + tail =~= digits(m as nat) + rev@.reverse() + tail);
            }
        }
        rev.push(48 + d);
        m = m / 10;
    }
    let mut out: Vec<u8> = Vec::new();
    out.push(48 + (m as u8));
    let ghost lead = out@;
    let mut i: usize = rev.len();
    proof {
        assert(lead == digits(m as nat));
        assert(rev@.reverse().take(0) =~= Seq::<u8>::empty());
        assert(out@ =~= lead + rev@.reverse().take(0));
    }
    while i > 0
        invariant
            i <= rev.len(),
            out@ == lead + rev@.reverse().take(rev.len() - i),
        decreases i,
    {
        i = i - 1;
        out.push(rev[i]);
        proof {
            let r = rev@.reverse();
            let k = rev.len() - i - 1;
            assert(r[k] == rev@[i as int]);
            assert(r.take(k + 1) =~= r.take(k).push(r[k]));
            assert(out@ =~= lead + r.take(k + 1));
        }
    }
    proof {
        let r = rev@.reverse();
        assert(r.take(rev.len() as int) =~= r);
        assert(digits(m as nat) + r + Seq::<u8>::empty() == digits(n as nat) + Seq::<u8>::empty());
        assert(out@ =~= digits(n as nat));
    }
    out
}

impl HeaderName {
    /// Makes a copy of the name.
    pub fn duplicate(&self) -> (r: HeaderName)
        ensures
            r@ == self@,
    {
        match self {
            HeaderName::Standard(s) => HeaderName::Standard(*s),
            HeaderName::Custom(b) => HeaderName::Custom(copy_bytes(b.as_slice())),
        }
    }

    /// Tells whether the name is the given standard name.
    pub fn is(&self, name: StandardHeader) -> (r: bool)
        ensures
            r == (self@ == Name::Standard(name)),
    {
        match self {
            HeaderName::Standard(s) => *s == name,
            HeaderName::Custom(_) => false,
        }
    }
}

/// One header of a message.
#[derive(Debug, PartialEq, Eq)]
pub struct Header {
    pub name: HeaderName,
    pub value: Vec<u8>,
}

impl View for Header {
    type V = Line;

    open spec fn view(&self) -> Line {
        (self.name@, self.value@)
    }
}

/// The headers of a message, in their order. A name may occur more than
/// once.
#[derive(Debug, PartialEq, Eq)]
pub struct HeaderMap {
    pub entries: Vec<Header>,
}

impl View for HeaderMap {
    type V = Seq<Line>;

    open spec fn view(&self) -> Seq<Line> {
        Seq::new(self.entries@.len(), |i: int| self.entries@[i]@)
    }
}

impl HeaderMap {
    /// A list without headers.
    pub fn new() -> (r: HeaderMap)
        ensures
            r@ == Seq::<Line>::empty(),
    {
        let r = HeaderMap { entries: Vec::new() };
        proof {
            assert(r@ =~= Seq::<Line>::empty());
        }
        r
    }

    /// The number of header lines.
    pub fn len(&self) -> (n: usize)
        ensures
            n == self@.len(),
    {
        self.entries.len()
    }

    /// Adds a line at the end; lines of the same name stay.
    pub fn append(&mut self, name: HeaderName, value: Vec<u8>)
        ensures
            final(self)@ == old(self)@.push((name@, value@)),
    {
        self.entries.push(Header { name, value });
        proof {
            assert(self@ =~= old(self)@.push((name@, value@)));
        }
    }

    /// Gives the standard header `name` the single value `value`: lines of
    /// that name leave, and the new line stands at the end.
    pub fn insert(&mut self, name: StandardHeader, value: Vec<u8>)
        ensures
            final(self)@ == without(old(self)@, Name::Standard(name)).push(line(name, value@)),
    {
        let mut kept: Vec<Header> = Vec::new();
        let ghost all = self@;
        let mut rest: Vec<Header> = Vec::new();
        std::mem::swap(&mut self.entries, &mut rest);
        let ghost source = rest@;
        proof {
            assert(all.take(0) =~= Seq::<Line>::empty());
        }
        // The lines are moved, not copied: they are taken from the front of
        // the old list by popping its reverse.
        let mut stack = reversed(rest);
        while stack.len() > 0
            invariant
                stack@.len() <= source.len(),
                forall|j: int| 0 <= j < stack@.len() ==> stack@[j] == source[source.len() - 1 - j],
                all == Seq::new(source.len(), |i: int| source[i]@),
                Seq::new(kept@.len(), |i: int| kept@[i]@) == without(
                    all.take(source.len() - stack@.len()),
                    Name::Standard(name),
                ),
            decreases stack.len(),
        {
            let ghost before = all.take(source.len() - stack@.len());
            let ghost pos = source.len() - stack@.len();
            let ghost kept_before = Seq::new(kept@.len(), |i: int| kept@[i]@);
            let h = stack.pop();
            match h {
                Some(h) => {
                    proof {
                        assert(h == source[pos as int]);
                        assert(all.take(pos + 1).drop_last() =~= before);
                        assert(all.take(pos + 1).last() == h@);
                    }
                    if !h.name.is(name) {
                        kept.push(h);
                        proof {
                            assert(Seq::new(kept@.len(), |i: int| kept@[i]@) =~= kept_before.push(
                                h@,
                            ));
                        }
                    }
                },
                None => {},
            }
        }
        proof {
            assert(all.take(source.len() as int) =~= all);
        }
        let ghost kept_lines = Seq::new(kept@.len(), |i: int| kept@[i]@);
        kept.push(Header { name: HeaderName::Standard(name), value });
        self.entries = kept;
        proof {
            assert(self@ =~= kept_lines.push(line(name, value@)));
        }
    }

    /// The index of the first line of the standard header `name`.
    pub fn position(&self, name: StandardHeader) -> (r: Option<usize>)
        ensures
            r is Some <==> first_value(self@, Name::Standard(name)) is Some,
            r matches Some(i) ==> i < self@.len() && self@[i as int].0 == Name::Standard(name)
                && first_value(self@, Name::Standard(name)) == Some(self@[i as int].1),
    {
        let mut i: usize = 0;
        proof {
            assert(self@.take(0) =~= Seq::<Line>::empty());
        }
        while i < self.entries.len()
            invariant
                i <= self.entries.len(),
                first_value(self@.take(i as int), Name::Standard(name)) is None,
            decreases self.entries.len() - i,
        {
            proof {
                assert(self@.take(i + 1).drop_last() =~= self@.take(i as int));
                assert(self@.take(i + 1).last() == self@[i as int]);
            }
            if self.entries[i].name.is(name) {
                proof {
                    lemma_first_value_extends(self@, Name::Standard(name), i as int + 1);
                }
                return Some(i);
            }
            i = i + 1;
        }
        proof {
            assert(self@.take(i as int) =~= self@);
        }
        None
    }

    /// The value of the first line of the standard header `name`.
    pub fn get(&self, name: StandardHeader) -> (r: Option<&Vec<u8>>)
        ensures
            r is Some <==> first_value(self@, Name::Standard(name)) is Some,
            r matches Some(v) ==> first_value(self@, Name::Standard(name)) == Some(v@),
    {
        match self.position(name) {
            Some(i) => Some(&self.entries[i].value),
            None => None,
        }
    }
}

/// A value found among the first `n` lines is the value found among all.
pub proof fn lemma_first_value_extends(lines: Seq<Line>, name: Name, n: int)
    requires
        0 <= n <= lines.len(),
        first_value(lines.take(n), name) is Some,
    ensures
        first_value(lines, name) == first_value(lines.take(n), name),
    decreases lines.len() - n,
{
    if n < lines.len() {
        assert(lines.take(n + 1).drop_last() =~= lines.take(n));
        lemma_first_value_extends(lines, name, n + 1);
    } else {
        assert(lines.take(n) =~= lines);
    }
}

} // verus!
