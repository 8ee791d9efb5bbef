//! Sets of port numbers and their textual form.
use crate::table::{lists, PortTable};
use crate::value::{Text, Value};
use vstd::prelude::*;

verus! {

/// A set of port numbers.
#[derive(Debug)]
pub struct PortSet {
    members: PortTable<()>,
}

impl DeepView for PortSet {
    type V = Set<u16>;

    closed spec fn deep_view(&self) -> Set<u16> {
        self.members.deep_view().dom()
    }
}

impl Value for PortSet {
    fn same(&self, other: &Self) -> (r: bool) {
        let r = self.members.same(&other.members);
        if !r {
            assert(!(self.members.deep_view() =~= other.members.deep_view()));
        }
        r
    }

    fn dup(&self) -> (r: Self) {
        PortSet { members: self.members.dup() }
    }
}

impl PortSet {
    /// A set without members.
    pub fn new() -> (r: Self)
        ensures
            r.deep_view() == Set::<u16>::empty(),
    {
        let r = PortSet { members: PortTable::new() };
        assert(r.deep_view() =~= Set::<u16>::empty());
        r
    }

    /// Whether a port is a member.
    pub fn contains(&self, port: u16) -> (r: bool)
        ensures
            r == self.deep_view().contains(port),
    {
        self.members.get(&port).is_some()
    }

    /// Makes a port a member.
    pub fn insert(&mut self, port: u16)
        ensures
            final(self).deep_view() == old(self).deep_view().insert(port),
    {
        let ghost before = self.deep_view();
        self.members.insert(port, ());
        assert(self.deep_view() =~= before.insert(port));
    }

    /// Makes a port no member.
    pub fn remove(&mut self, port: u16)
        ensures
            final(self).deep_view() == old(self).deep_view().remove(port),
    {
        let ghost before = self.deep_view();
        let _ = self.members.remove(&port);
        assert(self.deep_view() =~= before.remove(port));
    }

    /// The members, each once.
    pub fn list(&self) -> (r: Vec<u16>)
        ensures
            lists(r@, self.deep_view()),
    {
        let n: usize = self.members.len();
        let mut r: Vec<u16> = Vec::new();
        let mut i: usize = 0;
        while i < n
            invariant
                i <= n,
                n == self.members.walk().len(),
                r@.len() == i,
                forall|j: int| 0 <= j < i ==> #[trigger] r@[j] == self.members.walk()[j],
            decreases n - i,
        {
            r.push(*self.members.key_at(i));
            i = i + 1;
        }
        assert(r@ =~= self.members.walk());
        r
    }
}

/// White space: the characters with the Unicode property of that name.
pub open spec fn is_white(c: char) -> bool {
    ||| '\u{9}' <= c <= '\u{d}'
    ||| c == ' '
    ||| c == '\u{85}'
    ||| c == '\u{a0}'
    ||| c == '\u{1680}'
    ||| '\u{2000}' <= c <= '\u{200a}'
    ||| c == '\u{2028}'
    ||| c == '\u{2029}'
    ||| c == '\u{202f}'
    ||| c == '\u{205f}'
    ||| c == '\u{3000}'
}

/// A text without the white space that it begins with.
pub open spec fn trim_front(s: Text) -> Text
    decreases s.len(),
{
    if s.len() > 0 && is_white(s[0]) {
        trim_front(s.skip(1))
    } else {
        s
    }
}

/// A text without the white space that it ends with.
pub open spec fn trim_back(s: Text) -> Text
    decreases s.len(),
{
    if s.len() > 0 && is_white(s.last()) {
        trim_back(s.drop_last())
    } else {
        s
    }
}

/// A text without the white space around it.
pub open spec fn trimmed(s: Text) -> Text {
    trim_back(trim_front(s))
}

/// The parts of a text between separators. There is one more of them than
/// there are separators.
pub open spec fn fields(s: Text, separator: char) -> Seq<Text>
    decreases s.len(),
{
    if s.len() == 0 {
        seq![Seq::empty()]
    } else {
        let before = fields(s.drop_last(), separator);
        if s.last() == separator {
            before.push(Seq::empty())
        } else {
            before.drop_last().push(before.last().push(s.last()))
        }
    }
}

/// Whether a character is a decimal digit.
pub open spec fn is_digit(c: char) -> bool {
    '0' <= c <= '9'
}

/// The number that decimal digits stand for.
pub open spec fn decimal(digits: Text) -> nat
    decreases digits.len(),
{
    if digits.len() == 0 {
        0
    } else {
        decimal(digits.drop_last()) * 10 + (digits.last() as nat - '0' as nat) as nat
    }
}

/// A text without the plus sign that it may begin with.
pub open spec fn without_plus(t: Text) -> Text {
    if t.len() > 0 && t[0] == '+' {
        t.skip(1)
    } else {
        t
    }
}

/// Whether a text is made of decimal digits.
pub open spec fn all_digits(t: Text) -> bool {
    forall|i: int| 0 <= i < t.len() ==> is_digit(#[trigger] t[i])
}

/// The port number that a text stands for: decimal digits, with white space
/// around them and a plus sign in front of them if one likes. Zero is no port.
pub open spec fn port_number(s: Text) -> Option<u16> {
    let digits = without_plus(trimmed(s));
    if digits.len() > 0 && all_digits(digits) && 0 < decimal(digits) <= 65535 {
        Some(decimal(digits) as u16)
    } else {
        None
    }
}

/// The ports that one field of a list stands for: none for a blank field, a
/// range for two ports with a dash between them, or else a single port.
pub open spec fn field_ports(field: Text) -> Option<Set<u16>> {
    match field.index_of_first('-') {
        Some(dash) => match (port_number(field.take(dash)), port_number(field.skip(dash + 1))) {
            (Some(floor), Some(ceil)) => if floor <= ceil {
                Some(Set::new(|p: u16| floor <= p <= ceil))
            } else {
                None
            },
            _ => None,
        },
        None => if trimmed(field).len() == 0 {
            Some(Set::empty())
        } else {
            match port_number(field) {
                Some(port) => Some(Set::new(|p: u16| p == port)),
                None => None,
            }
        },
    }
}

/// The ports that a comma-separated list of ports and port ranges stands for,
/// if every field of it is well formed.
pub open spec fn portset_of(s: Text) -> Option<Set<u16>> {
    let parts = fields(s, ',');
    if forall|i: int| 0 <= i < parts.len() ==> field_ports(#[trigger] parts[i]) is Some {
        Some(
            Set::new(
                |p: u16|
                    exists|i: int|
                        0 <= i < parts.len() && (field_ports(#[trigger] parts[i])->0).contains(p),
            ),
        )
    } else {
        None
    }
}

/// The error of a list of ports that is not well formed.
#[derive(Clone, Copy, Debug, PartialEq, Eq, Structural)]
pub struct InvalidPorts;

fn white(c: char) -> (r: bool)
    ensures
        r == is_white(c),
{
    ('\u{9}' <= c && c <= '\u{d}') || c == ' ' || c == '\u{85}' || c == '\u{a0}' || c == '\u{1680}'
        || ('\u{2000}' <= c && c <= '\u{200a}') || c == '\u{2028}' || c == '\u{2029}' || c
        == '\u{202f}' || c == '\u{205f}' || c == '\u{3000}'
}

/// The value of a decimal digit.
fn digit(c: char) -> (r: Option<u32>)
    ensures
        r == (if is_digit(c) {
            Some((c as u32 - '0' as u32) as u32)
        } else {
            None
        }),
{
    if '0' <= c && c <= '9' {
        Some(c as u32 - '0' as u32)
    } else {
        None
    }
}

/// The place of a text without the white space around it.
fn trim_range(v: &Vec<char>, from: usize, to: usize) -> (r: (usize, usize))
    requires
        from <= to <= v@.len(),
    ensures
        from <= r.0 <= r.1 <= to,
        v@.subrange(r.0 as int, r.1 as int) == trimmed(v@.subrange(from as int, to as int)),
{
    let mut lo: usize = from;
    while lo < to && white(v[lo])
        invariant
            from <= lo <= to <= v@.len(),
            trim_front(v@.subrange(from as int, to as int)) == trim_front(
                v@.subrange(lo as int, to as int),
            ),
        decreases to - lo,
    {
        assert(v@.subrange(lo as int, to as int).skip(1) =~= v@.subrange(lo + 1, to as int));
        lo = lo + 1;
    }
    assert(trim_front(v@.subrange(from as int, to as int)) == v@.subrange(lo as int, to as int));
    let mut hi: usize = to;
    while lo < hi && white(v[hi - 1])
        invariant
            from <= lo <= hi <= to <= v@.len(),
            trim_back(v@.subrange(lo as int, to as int)) == trim_back(
                v@.subrange(lo as int, hi as int),
            ),
        decreases hi - lo,
    {
        assert(v@.subrange(lo as int, hi as int).drop_last() =~= v@.subrange(lo as int, hi - 1));
        hi = hi - 1;
    }
    (lo, hi)
}

/// Reads a port number.
fn parse_port(v: &Vec<char>, from: usize, to: usize) -> (r: Option<u16>)
    requires
        from <= to <= v@.len(),
    ensures
        r == port_number(v@.subrange(from as int, to as int)),
{
    let (lo, hi) = trim_range(v, from, to);
    let ghost t = trimmed(v@.subrange(from as int, to as int));
    let mut i: usize = lo;
    if lo < hi && v[lo] == '+' {
        i = lo + 1;
        assert(t.skip(1) =~= v@.subrange(i as int, hi as int));
    }
    let start: usize = i;
    let ghost digits = v@.subrange(start as int, hi as int);
    assert(digits == without_plus(t));
    if start == hi {
        return None;
    }
    let mut value: u32 = 0;
    assert(digits.take(0) =~= Seq::empty());
    while i < hi
        invariant
            start <= i <= hi <= v@.len(),
            digits == v@.subrange(start as int, hi as int),
            digits == without_plus(trimmed(v@.subrange(from as int, to as int))),
            from <= to <= v@.len(),
            forall|j: int| 0 <= j < i - start ==> is_digit(#[trigger] digits[j]),
            value <= 65536,
            value == if decimal(digits.take(i - start)) <= 65535 {
                decimal(digits.take(i - start)) as int
            } else {
                65536
            },
        decreases hi - i,
    {
        assert(digits[i - start] == v@[i as int]);
        match digit(v[i]) {
            Some(d) => {
                assert(digits.take(i + 1 - start).drop_last() =~= digits.take(i - start));
                let next: u32 = value * 10 + d;
                value = if next <= 65535 {
                    next
                } else {
                    65536
                };
            },
            None => {
                return None;
            },
        }
        i = i + 1;
    }
    assert(digits.take(hi - start) =~= digits);
    if value == 0 || value > 65535 {
        None
    } else {
        Some(value as u16)
    }
}

/// The place of the first dash of a text.
fn find_dash(v: &Vec<char>) -> (r: Option<usize>)
    ensures
        match r {
            Some(i) => i < v@.len() && v@.index_of_first('-') == Some(i as int),
            None => v@.index_of_first('-') is None,
        },
{
    let mut i: usize = 0;
    while i < v.len()
        invariant
            i <= v@.len(),
            forall|j: int| 0 <= j < i ==> v@[j] != '-',
        decreases v@.len() - i,
    {
        if v[i] == '-' {
            proof {
                v@.index_of_first_ensures('-');
            }
            return Some(i);
        }
        i = i + 1;
    }
    proof {
        v@.index_of_first_ensures('-');
    }
    None
}

/// Adds the ports of one field of a list to a set.
fn parse_field(v: &Vec<char>, ports: &mut PortSet) -> (r: Result<(), InvalidPorts>)
    ensures
        r is Ok <==> field_ports(v@) is Some,
        r is Ok ==> final(ports).deep_view() == old(ports).deep_view().union(field_ports(v@)->0),
{
    let ghost before = ports.deep_view();
    let n: usize = v.len();
    match find_dash(v) {
        Some(dash) => {
            assert(v@.take(dash as int) =~= v@.subrange(0, dash as int));
            assert(v@.skip(dash + 1) =~= v@.subrange(dash + 1, v@.len() as int));
            match (parse_port(v, 0, dash), parse_port(v, dash + 1, n)) {
                (Some(floor), Some(ceil)) => {
                    if floor > ceil {
                        return Err(InvalidPorts);
                    }
                    let ghost range = Set::new(|p: u16| floor <= p <= ceil);
                    assert(field_ports(v@) == Some(range));
                    let mut port: u16 = floor;
                    ports.insert(port);
                    while port < ceil
                        invariant
                            floor <= port <= ceil,
                            forall|p: u16| #[trigger]
                                ports.deep_view().contains(p) <==> before.contains(p) || floor <= p
                                    <= port,
                        decreases ceil - port,
                    {
                        port = port + 1;
                        ports.insert(port);
                    }
                    assert(ports.deep_view() =~= before.union(range));
                    Ok(())
                },
                _ => Err(InvalidPorts),
            }
        },
        None => {
            assert(v@.subrange(0, v@.len() as int) =~= v@);
            let (lo, hi) = trim_range(v, 0, n);
            if lo == hi {
                assert(ports.deep_view() =~= before.union(field_ports(v@)->0));
                return Ok(());
            }
            match parse_port(v, 0, n) {
                Some(port) => {
                    ports.insert(port);
                    assert(ports.deep_view() =~= before.union(field_ports(v@)->0));
                    Ok(())
                },
                None => Err(InvalidPorts),
            }
        },
    }
}

/// The parts of a text between commas.
fn split_commas(s: &str) -> (r: Vec<Vec<char>>)
    ensures
        r.deep_view() == fields(s@, ','),
{
    let mut r: Vec<Vec<char>> = Vec::new();
    let mut field: Vec<char> = Vec::new();
    assert(r.deep_view().push(field@) =~= fields(s@.take(0), ','));
    for c in it: s.chars()
        invariant
            it.seq() == s@,
            r.deep_view().push(field@) == fields(s@.take(it.index() as int), ','),
    {
        let ghost done = s@.take(it.index() as int);
        let ghost next = s@.take(it.index() + 1);
        assert(next.drop_last() =~= done);
        assert(next.last() == c);
        assert(fields(done, ',').last() == field@);
        assert(fields(done, ',').drop_last() =~= r.deep_view());
        if c == ',' {
            let ghost before = r.deep_view();
            assert(field.deep_view() =~= field@);
            r.push(field);
            assert(r.deep_view() =~= before.push(field@));
            field = Vec::new();
        } else {
            field.push(c);
        }
        assert(r.deep_view().push(field@) =~= fields(next, ','));
    }
    assert(s@.take(s@.len() as int) =~= s@);
    let ghost before = r.deep_view();
    assert(field.deep_view() =~= field@);
    r.push(field);
    assert(r.deep_view() =~= before.push(field@));
    r
}

/// Reads a comma-separated list of ports and port ranges.
pub fn parse_portset(s: &str) -> (r: Result<PortSet, InvalidPorts>)
    ensures
        match r {
            Ok(ports) => portset_of(s@) == Some(ports.deep_view()),
            Err(_) => portset_of(s@) is None,
        },
{
    let parts = split_commas(s);
    let ghost all = fields(s@, ',');
    let mut ports = PortSet::new();
    let mut i: usize = 0;
    while i < parts.len()
        invariant
            i <= parts.len(),
            all == fields(s@, ','),
            parts.deep_view() == all,
            forall|j: int| 0 <= j < i ==> field_ports(#[trigger] all[j]) is Some,
            forall|p: u16|
                ports.deep_view().contains(p) <==> exists|j: int|
                    0 <= j < i && (field_ports(#[trigger] all[j])->0).contains(p),
        decreases parts.len() - i,
    {
        assert(all[i as int] == parts@[i as int].deep_view());
        assert(parts@[i as int].deep_view() =~= parts@[i as int]@);
        let ghost before = ports.deep_view();
        if parse_field(&parts[i], &mut ports).is_err() {
            return Err(InvalidPorts);
        }
        assert forall|p: u16| ports.deep_view().contains(p) implies exists|j: int|
            0 <= j < i + 1 && (field_ports(#[trigger] all[j])->0).contains(p) by {
            if !before.contains(p) {
                assert((field_ports(all[i as int])->0).contains(p));
            }
        }
        i = i + 1;
    }
    assert(ports.deep_view() =~= portset_of(s@)->0);
    Ok(ports)
}

} // verus!
