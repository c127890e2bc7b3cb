//! Listing the audio output devices by name and choosing one of them.

use vstd::prelude::*;
use vstd::string::StrSliceExecFns;

verus! {

/// Whether `a` comes before `b`: the order of strings, code point by code
/// point, a proper prefix before what it is a prefix of.
pub open spec fn name_lt(a: Seq<char>, b: Seq<char>) -> bool
    decreases a.len(),
{
    if b.len() == 0 {
        false
    } else if a.len() == 0 {
        true
    } else if a[0] != b[0] {
        (a[0] as u32) < (b[0] as u32)
    } else {
        name_lt(a.drop_first(), b.drop_first())
    }
}

/// No name comes before itself.
pub proof fn name_order_is_strict(a: Seq<char>)
    ensures
        !name_lt(a, a),
    decreases a.len(),
{
    if a.len() > 0 {
        name_order_is_strict(a.drop_first());
    }
}

/// Of two names exactly one holds: the first comes before the second, they
/// are the same name, or the second comes before the first.
pub proof fn names_are_comparable(a: Seq<char>, b: Seq<char>)
    ensures
        name_lt(a, b) || a == b || name_lt(b, a),
        !(name_lt(a, b) && name_lt(b, a)),
        a == b ==> !name_lt(a, b),
    decreases a.len(),
{
    name_order_is_strict(a);
    if a.len() == 0 || b.len() == 0 {
        if a.len() == 0 && b.len() == 0 {
            assert(a =~= b);
        }
    } else if a[0] != b[0] {
        vstd::utf8::char_u32_cast(a[0], a[0] as u32);
        vstd::utf8::char_u32_cast(b[0], b[0] as u32);
    } else {
        names_are_comparable(a.drop_first(), b.drop_first());
        if a.drop_first() == b.drop_first() {
            assert(a =~= seq![a[0]] + a.drop_first());
            assert(b =~= seq![b[0]] + b.drop_first());
        }
    }
}

/// What comes before a name comes before everything after that name.
pub proof fn name_order_is_transitive(a: Seq<char>, b: Seq<char>, c: Seq<char>)
    requires
        name_lt(a, b),
        name_lt(b, c),
    ensures
        name_lt(a, c),
    decreases a.len(),
{
    if a.len() == 0 {
    } else if a[0] != b[0] || b[0] != c[0] {
    } else {
        name_order_is_transitive(a.drop_first(), b.drop_first(), c.drop_first());
    }
}

/// Whether `a` comes before `b`.
pub fn name_before(a: &str, b: &str) -> (before: bool)
    ensures
        before == name_lt(a@, b@),
{
    let n: usize = a.unicode_len();
    let m: usize = b.unicode_len();
    let mut i: usize = 0;
    assert(a@.skip(0) =~= a@ && b@.skip(0) =~= b@);
    while i < n && i < m
        invariant
            n == a@.len(),
            m == b@.len(),
            i <= n,
            i <= m,
            name_lt(a@, b@) == name_lt(a@.skip(i as int), b@.skip(i as int)),
        decreases n - i,
    {
        let x: char = a.get_char(i);
        let y: char = b.get_char(i);
        proof {
            assert(a@.skip(i as int)[0] == x);
            assert(b@.skip(i as int)[0] == y);
            assert(a@.skip(i as int).drop_first() =~= a@.skip(i as int + 1));
            assert(b@.skip(i as int).drop_first() =~= b@.skip(i as int + 1));
        }
        if x != y {
            return (x as u32) < (y as u32);
        }
        i += 1;
    }
    i < m
}

/// The name under which a device is listed: its own, or `<unknown>` where
/// its name could not be read.
pub open spec fn label(name: Option<String>) -> Seq<char> {
    match name {
        Some(own) => own@,
        None => "<unknown>"@,
    }
}

/// Whether `listed` holds the devices of `found` from position `from` on,
/// each under its label, sorted by label, devices with the same label in the
/// order in which they were found. `order[i]` is the position in `found` of
/// the device listed at `i`.
pub open spec fn lists<D>(
    found: Seq<(Option<String>, D)>,
    from: int,
    listed: Seq<(String, D)>,
    order: Seq<int>,
) -> bool {
    &&& 0 <= from <= found.len()
    &&& listed.len() == found.len() - from
    &&& order.len() == listed.len()
    &&& forall|i: int| 0 <= i < order.len() ==> from <= #[trigger] order[i] < found.len()
    &&& forall|k: int| from <= k < found.len() ==> #[trigger] order.contains(k)
    &&& forall|i: int|
        0 <= i < listed.len() ==> (#[trigger] listed[i]).0@ == label(found[order[i]].0)
            && listed[i].1 == found[order[i]].1
    &&& forall|i: int, j: int|
        0 <= i < j < listed.len() ==> name_lt(#[trigger] listed[i].0@, #[trigger] listed[j].0@) || (
        listed[i].0@ == listed[j].0@ && order[i] < order[j])
}

/// Lists the devices that were found, each with its name or, where that
/// could not be read, with `<unknown>`: sorted by name, devices of the same
/// name in the order in which they were found.
pub fn list_output_devs<D>(found: Vec<(Option<String>, D)>) -> (listed: Vec<(String, D)>)
    ensures
        exists|order: Seq<int>| lists(found@, 0, listed@, order),
{
    let ghost all = found@;
    let mut rest = found;
    let mut listed: Vec<(String, D)> = Vec::new();
    let ghost mut order: Seq<int> = Seq::empty();
    while rest.len() > 0
        invariant
            rest@.len() <= all.len(),
            rest@ == all.take(rest@.len() as int),
            lists(all, rest@.len() as int, listed@, order),
        decreases rest@.len(),
    {
        let (name, device) = rest.pop().unwrap();
        let ghost k = rest@.len() as int;
        assert(all[k] == (name, device));
        let shown: String = match name {
            Some(own) => own,
            None => "<unknown>".to_owned(),
        };
        assert(shown@ == label(all[k].0));
        let mut at: usize = 0;
        while at < listed.len() && name_before(listed[at].0.as_str(), shown.as_str())
            invariant
                at <= listed@.len(),
                forall|i: int| 0 <= i < at ==> name_lt(#[trigger] listed@[i].0@, shown@),
            decreases listed@.len() - at,
        {
            at += 1;
        }
        let ghost before = listed@;
        let ghost order_before = order;
        listed.insert(at, (shown, device));
        proof {
            order = order_before.insert(at as int, k);
            let now = listed@;
            assert forall|i: int, j: int| 0 <= i < j < now.len() implies name_lt(
                #[trigger] now[i].0@,
                #[trigger] now[j].0@,
            ) || (now[i].0@ == now[j].0@ && order[i] < order[j]) by {
                if i == at {
                    // what follows the new entry is not before it, and was found later
                    let next = before[at as int].0@;
                    let other = before[j - 1].0@;
                    names_are_comparable(next, shown@);
                    if j - 1 > at {
                        if name_lt(shown@, next) && name_lt(next, other) {
                            name_order_is_transitive(shown@, next, other);
                        }
                    }
                    assert(order[j] == order_before[j - 1]);
                } else if j == at {
                    assert(now[i] == before[i]);
                } else {
                    let bi = if i < at { i } else { i - 1 };
                    let bj = if j < at { j } else { j - 1 };
                    assert(now[i] == before[bi] && now[j] == before[bj]);
                    assert(order[i] == order_before[bi] && order[j] == order_before[bj]);
                }
            }
            assert forall|c: int| k <= c < all.len() implies #[trigger] order.contains(c) by {
                if c == k {
                    assert(order[at as int] == k);
                } else {
                    assert(order_before.contains(c));
                    let i0 = choose|i: int| 0 <= i < order_before.len() && order_before[i] == c;
                    let i1 = if i0 < at { i0 } else { i0 + 1 };
                    assert(order[i1] == c);
                }
            }
            assert forall|i: int| 0 <= i < now.len() implies (#[trigger] now[i]).0@ == label(
                all[order[i]].0,
            ) && now[i].1 == all[order[i]].1 by {
                if i < at {
                    assert(now[i] == before[i]);
                } else if i > at {
                    assert(now[i] == before[i - 1]);
                }
            }
        }
    }
    proof {
        assert(lists(all, 0, listed@, order));
    }
    listed
}

/// In a listing no device occurs twice.
proof fn listing_has_no_repeats<D>(
    found: Seq<(Option<String>, D)>,
    listed: Seq<(String, D)>,
    order: Seq<int>,
    i: int,
    j: int,
)
    requires
        lists(found, 0, listed, order),
        0 <= i < listed.len(),
        0 <= j < listed.len(),
        order[i] == order[j],
    ensures
        i == j,
{
    names_are_comparable(listed[i].0@, listed[j].0@);
    if i < j {
        assert(listed[i].0@ == label(found[order[i]].0));
        assert(listed[j].0@ == label(found[order[j]].0));
    } else if j < i {
        assert(listed[i].0@ == label(found[order[i]].0));
        assert(listed[j].0@ == label(found[order[j]].0));
    }
}

/// Two listings of the same devices take them in the same order, up to and
/// including position `upto`.
proof fn listings_agree_upto<D>(
    found: Seq<(Option<String>, D)>,
    first: Seq<(String, D)>,
    first_order: Seq<int>,
    second: Seq<(String, D)>,
    second_order: Seq<int>,
    upto: int,
)
    requires
        lists(found, 0, first, first_order),
        lists(found, 0, second, second_order),
        0 <= upto < found.len(),
    ensures
        forall|i: int| 0 <= i <= upto ==> first_order[i] == second_order[i],
    decreases upto,
{
    if upto > 0 {
        listings_agree_upto(found, first, first_order, second, second_order, upto - 1);
    }
    let a = first_order[upto];
    let b = second_order[upto];
    if a != b {
        // each listing holds the other's device further on
        assert(first_order.contains(b));
        let p = choose|p: int| 0 <= p < first_order.len() && first_order[p] == b;
        assert(second_order.contains(a));
        let q = choose|q: int| 0 <= q < second_order.len() && second_order[q] == a;
        if p < upto {
            listing_has_no_repeats(found, second, second_order, p, upto);
        }
        if q < upto {
            listing_has_no_repeats(found, first, first_order, q, upto);
        }
        assert(upto < p && upto < q);
        assert(first[upto].0@ == label(found[a].0) && first[p].0@ == label(found[b].0));
        assert(second[upto].0@ == label(found[b].0) && second[q].0@ == label(found[a].0));
        names_are_comparable(label(found[a].0), label(found[b].0));
        assert(false);
    }
}

/// The listing of given devices is unique: two listings hold the same
/// devices under the same names at every position.
pub proof fn listing_is_unique<D>(
    found: Seq<(Option<String>, D)>,
    first: Seq<(String, D)>,
    first_order: Seq<int>,
    second: Seq<(String, D)>,
    second_order: Seq<int>,
)
    requires
        lists(found, 0, first, first_order),
        lists(found, 0, second, second_order),
    ensures
        first_order == second_order,
        first.len() == second.len(),
        forall|i: int|
            0 <= i < first.len() ==> (#[trigger] first[i]).0@ == second[i].0@ && first[i].1
                == second[i].1,
{
    if found.len() > 0 {
        listings_agree_upto(found, first, first_order, second, second_order, found.len() - 1);
    }
    assert(first_order =~= second_order);
    assert forall|i: int| 0 <= i < first.len() implies (#[trigger] first[i]).0@ == second[i].0@
        && first[i].1 == second[i].1 by {
        assert(second[i].0@ == label(found[second_order[i]].0));
    }
}

/// How the device to capture from is settled before anyone is asked.
#[derive(Clone, Copy, Debug, PartialEq, Eq, Structural)]
pub enum Selection {
    /// There is no device to choose from.
    Unavailable,
    /// There is one device, and it is taken: the index is 0.
    Chosen(usize),
    /// There are several: the choice is the user's.
    Ask,
}

/// Settles the choice among `count` listed devices as far as it can be
/// settled without asking.
pub fn preselect(count: usize) -> (selection: Selection)
    ensures
        count == 0 ==> selection == Selection::Unavailable,
        count == 1 ==> selection == Selection::Chosen(0),
        count >= 2 ==> selection == Selection::Ask,
{
    if count == 0 {
        Selection::Unavailable
    } else if count == 1 {
        Selection::Chosen(0)
    } else {
        Selection::Ask
    }
}

/// The characters with the Unicode property `White_Space`.
pub open spec fn is_space(c: char) -> bool {
    let u = c as u32;
    ||| 0x09 <= u <= 0x0D
    ||| u == 0x20
    ||| u == 0x85
    ||| u == 0xA0
    ||| u == 0x1680
    ||| 0x2000 <= u <= 0x200A
    ||| u == 0x2028
    ||| u == 0x2029
    ||| u == 0x202F
    ||| u == 0x205F
    ||| u == 0x3000
}

/// The decimal digits `0` to `9`.
pub open spec fn is_digit(c: char) -> bool {
    0x30 <= c as u32 <= 0x39
}

/// `s` without the white space at its start.
pub open spec fn trim_start(s: Seq<char>) -> Seq<char>
    decreases s.len(),
{
    if s.len() > 0 && is_space(s[0]) {
        trim_start(s.drop_first())
    } else {
        s
    }
}

/// `s` without the white space at its end.
pub open spec fn trim_end(s: Seq<char>) -> Seq<char>
    decreases s.len(),
{
    if s.len() > 0 && is_space(s.last()) {
        trim_end(s.drop_last())
    } else {
        s
    }
}

/// The number that a run of decimal digits writes.
pub open spec fn decimal(digits: Seq<char>) -> nat
    decreases digits.len(),
{
    if digits.len() == 0 {
        0
    } else {
        decimal(digits.drop_last()) * 10 + (digits.last() as u32 - 0x30) as nat
    }
}

/// `s` without the `+` that it may begin with.
pub open spec fn unsigned(s: Seq<char>) -> Seq<char> {
    if s.len() > 0 && s[0] == '+' {
        s.drop_first()
    } else {
        s
    }
}

/// Whether `s` holds decimal digits only.
pub open spec fn all_digits(s: Seq<char>) -> bool {
    forall|i: int| 0 <= i < s.len() ==> is_digit(#[trigger] s[i])
}

/// The number that `s` writes: one decimal digit or more, with at most a
/// `+` in front and nothing else.
pub open spec fn number(s: Seq<char>) -> Option<nat> {
    if unsigned(s).len() > 0 && all_digits(unsigned(s)) {
        Some(decimal(unsigned(s)))
    } else {
        None
    }
}

/// The index that a line of input picks among `count` devices: the number
/// that the line writes once the white space around it is gone, if it
/// writes one and that is below `count`.
pub open spec fn choice(line: Seq<char>, count: nat) -> Option<nat> {
    match number(trim_end(trim_start(line))) {
        Some(index) => if index < count {
            Some(index)
        } else {
            None
        },
        None => None,
    }
}

/// Whether `c` is white space.
pub fn is_whitespace(c: char) -> (space: bool)
    ensures
        space == is_space(c),
{
    let u: u32 = c as u32;
    (0x09 <= u && u <= 0x0D) || u == 0x20 || u == 0x85 || u == 0xA0 || u == 0x1680 || (0x2000 <= u
        && u <= 0x200A) || u == 0x2028 || u == 0x2029 || u == 0x202F || u == 0x205F || u == 0x3000
}

/// A run of digits writes no less than any run it starts with.
proof fn decimal_grows(digits: Seq<char>, upto: int)
    requires
        0 <= upto <= digits.len(),
    ensures
        decimal(digits.take(upto)) <= decimal(digits),
    decreases digits.len() - upto,
{
    if upto == digits.len() {
        assert(digits.take(upto) =~= digits);
    } else {
        decimal_grows(digits.drop_last(), upto);
        assert(digits.drop_last().take(upto) =~= digits.take(upto));
    }
}

/// The bounds of what is left of `line` once the white space around it is
/// gone.
fn trim_bounds(line: &str) -> (bounds: (usize, usize))
    ensures
        bounds.0 <= bounds.1 <= line@.len(),
        line@.subrange(bounds.0 as int, bounds.1 as int) == trim_end(trim_start(line@)),
{
    let n: usize = line.unicode_len();
    let mut start: usize = 0;
    assert(line@.skip(0) =~= line@);
    while start < n && is_whitespace(line.get_char(start))
        invariant
            n == line@.len(),
            start <= n,
            trim_start(line@) == trim_start(line@.skip(start as int)),
        decreases n - start,
    {
        assert(line@.skip(start as int).drop_first() =~= line@.skip(start as int + 1));
        start += 1;
    }
    assert(trim_start(line@) == line@.skip(start as int));
    let mut end: usize = n;
    assert(line@.skip(start as int) =~= line@.subrange(start as int, end as int));
    while end > start && is_whitespace(line.get_char(end - 1))
        invariant
            n == line@.len(),
            start <= end <= n,
            trim_end(trim_start(line@)) == trim_end(line@.subrange(start as int, end as int)),
        decreases end,
    {
        assert(line@.subrange(start as int, end as int).drop_last() =~= line@.subrange(
            start as int,
            end as int - 1,
        ));
        end -= 1;
    }
    (start, end)
}

/// The number below `count` that the characters of `line` from `from` to
/// `to` write in decimal digits, if they are digits, one or more, and write
/// such a number.
fn read_digits(line: &str, from: usize, to: usize, count: usize) -> (value: Option<usize>)
    requires
        from <= to <= line@.len(),
    ensures
        ({
            let digits = line@.subrange(from as int, to as int);
            if digits.len() > 0 && all_digits(digits) && decimal(digits) < count {
                value == Some(decimal(digits) as usize)
            } else {
                value is None
            }
        }),
{
    if from == to {
        return None;
    }
    let ghost digits = line@.subrange(from as int, to as int);
    let mut at: usize = from;
    let mut value: usize = 0;
    assert(digits.take(0) =~= Seq::<char>::empty());
    while at < to
        invariant
            from <= at <= to <= line@.len(),
            digits == line@.subrange(from as int, to as int),
            forall|i: int| 0 <= i < at - from ==> is_digit(#[trigger] digits[i]),
            value == decimal(digits.take(at - from)),
            at > from ==> value < count,
        decreases to - at,
    {
        let c: char = line.get_char(at);
        assert(digits[at - from] == c);
        let u: u32 = c as u32;
        if u < 0x30 || u > 0x39 {
            return None;
        }
        let digit: u128 = (u - 0x30) as u128;
        let grown: u128 = value as u128 * 10 + digit;
        proof {
            assert(digits.take(at - from + 1).drop_last() =~= digits.take(at - from));
            assert(digits.take(at - from + 1).last() == c);
            assert(grown == decimal(digits.take(at - from + 1)));
            decimal_grows(digits, at - from + 1);
        }
        if grown >= count as u128 {
            return None;
        }
        value = grown as usize;
        at += 1;
    }
    assert(digits.take(at - from) =~= digits);
    Some(value)
}

/// Reads a line of input as a choice among `count` devices. The line is
/// trimmed of white space and must then write, in decimal digits with at
/// most a `+` in front, an index below `count`; any other line gives `None`.
pub fn parse_choice(line: &str, count: usize) -> (picked: Option<usize>)
    ensures
        match choice(line@, count as nat) {
            Some(index) => picked == Some(index as usize),
            None => picked is None,
        },
{
    let (start, end) = trim_bounds(line);
    let ghost text = line@.subrange(start as int, end as int);
    let from: usize = if start < end && line.get_char(start) == '+' {
        start + 1
    } else {
        start
    };
    assert(line@.subrange(from as int, end as int) =~= unsigned(text));
    read_digits(line, from, end, count)
}

} // verus!
