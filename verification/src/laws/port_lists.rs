//! What a list of ports means.
use crate::ports::{
    all_digits, decimal, field_ports, fields, is_digit, is_white, port_number, portset_of,
    trim_back, trim_front, trimmed, without_plus,
};
use crate::value::Text;
use vstd::arithmetic::power::{lemma_pow0, lemma_pow1, lemma_pow_adds, pow};
use vstd::prelude::*;

verus! {

/// Whether a text is nothing but white space.
pub open spec fn is_blank(s: Text) -> bool {
    forall|i: int| 0 <= i < s.len() ==> is_white(#[trigger] s[i])
}

/// Whether a text neither begins nor ends with white space.
pub open spec fn is_tight(s: Text) -> bool {
    s.len() > 0 ==> !is_white(s[0]) && !is_white(s.last())
}

/// A text without separators is one field. Two texts with a separator between them
/// have the fields of the one and then those of the other.
pub proof fn separators_part_fields(a: Text, b: Text, separator: char)
    ensures
        !a.contains(separator) ==> fields(a, separator) == seq![a],
        fields(a + seq![separator] + b, separator) == fields(a, separator) + fields(b, separator),
        fields(a, separator).len() >= 1,
    decreases a.len() + b.len(),
{
    field_is_whole(a, separator);
    field_is_there(a, separator);
    field_is_there(b, separator);
    let s = a + seq![separator] + b;
    if b.len() == 0 {
        assert(s.drop_last() =~= a);
        assert(fields(s, separator) =~= fields(a, separator) + fields(b, separator));
    } else {
        let less = b.drop_last();
        separators_part_fields(a, less, separator);
        field_is_there(less, separator);
        assert(s.drop_last() =~= a + seq![separator] + less);
        assert(s.last() == b.last());
        assert(fields(s, separator) =~= fields(a, separator) + fields(b, separator));
    }
}

/// There is at least one field.
proof fn field_is_there(s: Text, separator: char)
    ensures
        fields(s, separator).len() >= 1,
    decreases s.len(),
{
    if s.len() > 0 {
        field_is_there(s.drop_last(), separator);
    }
}

/// A text without separators is one field.
proof fn field_is_whole(s: Text, separator: char)
    ensures
        !s.contains(separator) ==> fields(s, separator) == seq![s],
    decreases s.len(),
{
    if !s.contains(separator) {
        if s.len() > 0 {
            let less = s.drop_last();
            assert(!less.contains(separator)) by {
                if less.contains(separator) {
                    let i = choose|i: int| 0 <= i < less.len() && less[i] == separator;
                    assert(s[i] == separator);
                }
            }
            field_is_whole(less, separator);
            assert(s[s.len() - 1] != separator);
            assert(less.push(s.last()) =~= s);
            assert(fields(s, separator) =~= seq![s]);
        } else {
            assert(s =~= Seq::empty());
        }
    }
}

/// White space around a text is of no account, and nothing else is lost.
pub proof fn white_space_around_is_trimmed(front: Text, s: Text, back: Text)
    requires
        is_blank(front),
        is_blank(back),
        is_tight(s),
    ensures
        trimmed(front + s + back) == s,
{
    assert(front + s + back =~= front + (s + back));
    if s.len() > 0 {
        front_is_trimmed(front, s + back);
        assert((s + back)[0] == s[0]);
        back_is_trimmed(s, back);
    } else {
        let t = front + back;
        assert(front + (s + back) =~= t + Seq::empty());
        assert(is_blank(t));
        front_is_trimmed(t, Seq::empty());
        assert(s =~= Seq::empty());
    }
}

/// White space in front is trimmed.
proof fn front_is_trimmed(front: Text, s: Text)
    requires
        is_blank(front),
        s.len() > 0 ==> !is_white(s[0]),
    ensures
        trim_front(front + s) == s,
    decreases front.len(),
{
    if front.len() == 0 {
        assert(front + s =~= s);
    } else {
        let less = front.skip(1);
        assert(is_white(front[0]));
        assert forall|i: int| 0 <= i < less.len() implies is_white(#[trigger] less[i]) by {
            assert(less[i] == front[i + 1]);
        }
        assert((front + s).skip(1) =~= less + s);
        front_is_trimmed(less, s);
    }
}

/// White space behind is trimmed.
proof fn back_is_trimmed(s: Text, back: Text)
    requires
        is_blank(back),
        s.len() > 0,
        !is_white(s.last()),
    ensures
        trim_back(s + back) == s,
    decreases back.len(),
{
    if back.len() == 0 {
        assert(s + back =~= s);
    } else {
        let less = back.drop_last();
        assert(is_white(back[back.len() - 1]));
        assert forall|i: int| 0 <= i < less.len() implies is_white(#[trigger] less[i]) by {
            assert(less[i] == back[i]);
        }
        assert((s + back).drop_last() =~= s + less);
        back_is_trimmed(s, less);
    }
}

/// White space is told by the codes of the characters.
pub proof fn white_space_has_these_codes(c: char)
    ensures
        is_white(c) <==> {
            ||| 9 <= c as int <= 13
            ||| 0x2000 <= c as int <= 0x200a
            ||| seq![0x20int, 0x85, 0xa0, 0x1680, 0x2028, 0x2029, 0x202f, 0x205f, 0x3000].contains(
                c as int,
            )
        },
{
    let codes = seq![0x20int, 0x85, 0xa0, 0x1680, 0x2028, 0x2029, 0x202f, 0x205f, 0x3000];
    assert(codes[0] == 0x20 && codes[1] == 0x85 && codes[2] == 0xa0 && codes[3] == 0x1680);
    assert(codes[4] == 0x2028 && codes[5] == 0x2029 && codes[6] == 0x202f && codes[7] == 0x205f);
    assert(codes[8] == 0x3000);
}

/// The digits are the ten characters from zero on, and a text is made of digits if
/// each of its characters is one.
pub proof fn there_are_ten_digits(c: char, s: Text)
    ensures
        is_digit(c) <==> 0 <= (c as int) - ('0' as int) <= 9,
        all_digits(s) <==> forall|i: int|
            0 <= i < s.len() ==> '0' <= #[trigger] s[i] <= '9',
{
    if forall|i: int| 0 <= i < s.len() ==> '0' <= #[trigger] s[i] <= '9' {
        assert forall|i: int| 0 <= i < s.len() implies is_digit(#[trigger] s[i]) by {}
    }
    if all_digits(s) {
        assert forall|i: int| 0 <= i < s.len() implies '0' <= #[trigger] s[i] <= '9' by {
            assert(is_digit(s[i]));
        }
    }
}

/// Digits are read by place, in tens: those in front count as often more as there
/// are digits behind them.
pub proof fn digits_are_read_by_place(front: Text, back: Text)
    requires
        all_digits(front),
        all_digits(back),
    ensures
        decimal(front + back) == decimal(front) * pow(10, back.len()) + decimal(back),
        back.len() == 1 ==> decimal(back) == back[0] as int - '0' as int,
    decreases back.len(),
{
    if back.len() == 0 {
        assert(front + back =~= front);
        lemma_pow0(10);
    } else {
        let less = back.drop_last();
        assert forall|i: int| 0 <= i < less.len() implies is_digit(#[trigger] less[i]) by {
            assert(less[i] == back[i]);
        }
        assert(is_digit(back[back.len() - 1]));
        assert((front + back).drop_last() =~= front + less);
        assert((front + back).last() == back.last());
        digits_are_read_by_place(front, less);
        lemma_pow_adds(10, less.len(), 1);
        lemma_pow1(10);
        let f = decimal(front) as int;
        let p = pow(10, less.len());
        let l = decimal(less) as int;
        assert((f * p + l) * 10 == f * (p * 10) + l * 10) by (nonlinear_arith);
        if back.len() == 1 {
            assert(less =~= Seq::empty());
        }
    }
}

/// Digits stand for a port exactly if their number is one that a port can have, and
/// then for that port. A plus sign in front of them and white space around them are
/// of no account.
pub proof fn digits_stand_for_a_port(front: Text, digits: Text, back: Text)
    requires
        is_blank(front),
        is_blank(back),
        digits.len() > 0,
        all_digits(digits),
    ensures
        ({
            let port = port_number(front + digits + back);
            &&& port is Some <==> 1 <= decimal(digits) <= 65535
            &&& port matches Some(port) ==> port == decimal(digits)
            &&& port_number(front + (seq!['+'] + digits) + back) == port
        }),
{
    assert(is_digit(digits[0]) && is_digit(digits[digits.len() - 1]));
    white_space_around_is_trimmed(front, digits, back);
    let signed = seq!['+'] + digits;
    assert(signed[0] == '+' && signed.last() == digits.last());
    white_space_around_is_trimmed(front, signed, back);
    assert(signed.skip(1) =~= digits);
}

/// A text with anything but digits, but for a plus sign in front of them and white
/// space around them, stands for no port; nor does one without digits.
pub proof fn nothing_else_stands_for_a_port(front: Text, s: Text, back: Text, i: int)
    requires
        is_blank(front),
        is_blank(back),
        is_tight(s),
        s.len() == 0 || (0 <= i < s.len() && !is_digit(s[i]) && (i > 0 || s[0] != '+' || s.len()
            == 1)),
    ensures
        port_number(front + s + back) is None,
{
    white_space_around_is_trimmed(front, s, back);
    let digits = without_plus(s);
    if s.len() > 0 {
        if s[0] == '+' {
            if i > 0 {
                assert(digits[i - 1] == s[i]);
            }
        } else {
            assert(digits[i] == s[i]);
        }
    }
}

/// A field with a dash is a range: of every port from that before the first dash to
/// that behind it. It is not well formed if one of them is no port or if the second
/// is lower.
pub proof fn dash_makes_a_range(front: Text, back: Text, port: u16)
    requires
        !front.contains('-'),
    ensures
        ({
            let range = field_ports(front + seq!['-'] + back);
            let (floor, ceil) = (port_number(front), port_number(back));
            &&& range is Some <==> floor is Some && ceil is Some && floor->0 <= ceil->0
            &&& range matches Some(ports) ==> (ports.contains(port) <==> floor->0 <= port
                <= ceil->0)
        }),
{
    let field = front + seq!['-'] + back;
    let dash = front.len() as int;
    assert(field[dash] == '-');
    assert(field.contains('-'));
    field.index_of_first_ensures('-');
    let found = field.index_of_first('-')->0;
    if found < dash {
        assert(front[found] == '-');
    }
    assert(field.take(dash) =~= front);
    assert(field.skip(dash + 1) =~= back);
}

/// A field without a dash is a single port, or nothing if it is blank; it is not
/// well formed if it is neither.
pub proof fn no_dash_makes_a_port(field: Text, port: u16)
    requires
        !field.contains('-'),
    ensures
        is_blank(field) ==> field_ports(field) is Some && !field_ports(field)->0.contains(port),
        !is_blank(field) ==> {
            &&& field_ports(field) is Some <==> port_number(field) is Some
            &&& field_ports(field) matches Some(ports) ==> (ports.contains(port) <==> port_number(
                field,
            ) == Some(port))
        },
{
    field.index_of_first_ensures('-');
    if is_blank(field) {
        assert(field + Seq::<char>::empty() + Seq::<char>::empty() =~= field);
        white_space_around_is_trimmed(field, Seq::empty(), Seq::empty());
    } else {
        blank_if_trimmed_away(field);
    }
}

/// Where nothing is left, there was nothing but white space.
proof fn blank_if_trimmed_away(s: Text)
    ensures
        trimmed(s).len() == 0 ==> is_blank(s),
{
    let t = trim_front(s);
    blank_if_back_trimmed_away(t);
    blank_if_front_trimmed(s);
}

/// Where nothing is left from behind, there was nothing but white space.
proof fn blank_if_back_trimmed_away(s: Text)
    ensures
        trim_back(s).len() == 0 ==> is_blank(s),
    decreases s.len(),
{
    if trim_back(s).len() == 0 && s.len() > 0 {
        let less = s.drop_last();
        blank_if_back_trimmed_away(less);
        assert forall|i: int| 0 <= i < s.len() implies is_white(#[trigger] s[i]) by {
            if i < less.len() {
                assert(is_white(less[i]));
            }
        }
    }
}

/// Where white space is left from the front, there was nothing else.
proof fn blank_if_front_trimmed(s: Text)
    ensures
        is_blank(trim_front(s)) ==> is_blank(s),
    decreases s.len(),
{
    if s.len() > 0 && is_white(s[0]) && is_blank(trim_front(s)) {
        let less = s.skip(1);
        blank_if_front_trimmed(less);
        assert forall|i: int| 0 <= i < s.len() implies is_white(#[trigger] s[i]) by {
            if i > 0 {
                assert(is_white(less[i - 1]));
            }
        }
    }
}

/// A list without commas means what its one field does.
pub proof fn one_field_makes_a_list(s: Text, port: u16)
    requires
        !s.contains(','),
    ensures
        portset_of(s) is Some <==> field_ports(s) is Some,
        portset_of(s) matches Some(ports) ==> (ports.contains(port) <==> field_ports(
            s,
        )->0.contains(port)),
{
    separators_part_fields(s, Seq::empty(), ',');
    let parts = fields(s, ',');
    assert(parts[0] == s);
    if portset_of(s) is Some && field_ports(s)->0.contains(port) {
        assert(field_ports(parts[0])->0.contains(port));
    }
}

/// Two lists with a comma between them are well formed exactly if both are, and then
/// have the ports of both.
pub proof fn comma_joins_lists(a: Text, b: Text, port: u16)
    ensures
        ({
            let both = portset_of(a + seq![','] + b);
            &&& both is Some <==> portset_of(a) is Some && portset_of(b) is Some
            &&& both matches Some(ports) ==> (ports.contains(port) <==> portset_of(a)->0.contains(
                port,
            ) || portset_of(b)->0.contains(port))
        }),
{
    separators_part_fields(a, b, ',');
    let x = fields(a, ',');
    let y = fields(b, ',');
    let all = fields(a + seq![','] + b, ',');
    assert(all == x + y);
    assert forall|i: int| 0 <= i < x.len() implies #[trigger] x[i] == all[i] by {}
    assert forall|i: int| 0 <= i < y.len() implies #[trigger] y[i] == all[x.len() + i] by {}
    if portset_of(a) is Some && portset_of(b) is Some {
        assert forall|i: int| 0 <= i < all.len() implies field_ports(#[trigger] all[i]) is Some by {
            if i < x.len() {
                assert(field_ports(x[i]) is Some);
            } else {
                assert(field_ports(y[i - x.len()]) is Some);
            }
        }
        if portset_of(a)->0.contains(port) {
            let i = choose|i: int|
                0 <= i < x.len() && (field_ports(#[trigger] x[i])->0).contains(port);
            assert((field_ports(all[i])->0).contains(port));
        }
        if portset_of(b)->0.contains(port) {
            let i = choose|i: int|
                0 <= i < y.len() && (field_ports(#[trigger] y[i])->0).contains(port);
            assert((field_ports(all[x.len() + i])->0).contains(port));
        }
    }
    if portset_of(a + seq![','] + b) is Some {
        assert forall|i: int| 0 <= i < x.len() implies field_ports(#[trigger] x[i]) is Some by {
            assert(field_ports(all[i]) is Some);
        }
        assert forall|i: int| 0 <= i < y.len() implies field_ports(#[trigger] y[i]) is Some by {
            assert(field_ports(all[x.len() + i]) is Some);
        }
        if portset_of(a + seq![','] + b)->0.contains(port) {
            let i = choose|i: int|
                0 <= i < all.len() && (field_ports(#[trigger] all[i])->0).contains(port);
            if i < x.len() {
                assert((field_ports(x[i])->0).contains(port));
            } else {
                assert((field_ports(y[i - x.len()])->0).contains(port));
            }
        }
    }
}

} // verus!
