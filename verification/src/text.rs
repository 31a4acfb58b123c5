//! Text building blocks: decimal numbers, joined lists and byte lists.

use vstd::prelude::*;

verus! {

/// The views of a sequence of strings, one for one.
pub open spec fn texts(v: Seq<String>) -> Seq<Seq<char>> {
    Seq::new(v.len(), |i: int| v[i]@)
}

/// The character of a decimal digit.
pub open spec fn digit_char(d: int) -> char {
    if d == 0 {
        '0'
    } else if d == 1 {
        '1'
    } else if d == 2 {
        '2'
    } else if d == 3 {
        '3'
    } else if d == 4 {
        '4'
    } else if d == 5 {
        '5'
    } else if d == 6 {
        '6'
    } else if d == 7 {
        '7'
    } else if d == 8 {
        '8'
    } else {
        '9'
    }
}

/// A natural number in decimal notation, without leading zeros.
pub open spec fn decimal_text(n: nat) -> Seq<char>
    decreases n,
{
    if n < 10 {
        seq![digit_char(n as int)]
    } else {
        decimal_text(n / 10).push(digit_char((n % 10) as int))
    }
}

/// The parts of a list, with a separator between each two neighbours.
pub open spec fn joined(parts: Seq<Seq<char>>, sep: Seq<char>) -> Seq<char>
    decreases parts.len(),
{
    if parts.len() == 0 {
        Seq::empty()
    } else if parts.len() == 1 {
        parts[0]
    } else {
        joined(parts.drop_last(), sep) + sep + parts.last()
    }
}

/// A list of bytes as `[a, b, c]`, each byte in decimal.
pub open spec fn byte_list_text(bytes: Seq<u8>) -> Seq<char> {
    seq!['['] + joined(Seq::new(bytes.len(), |i: int| decimal_text(bytes[i] as nat)), seq![',', ' '])
        + seq![']']
}

fn digit_str(d: u64) -> (s: &'static str)
    requires
        d < 10,
    ensures
        s@ == seq![digit_char(d as int)],
{
    proof {
        reveal_strlit("0");
        reveal_strlit("1");
        reveal_strlit("2");
        reveal_strlit("3");
        reveal_strlit("4");
        reveal_strlit("5");
        reveal_strlit("6");
        reveal_strlit("7");
        reveal_strlit("8");
        reveal_strlit("9");
    }
    let s = if d == 0 {
        "0"
    } else if d == 1 {
        "1"
    } else if d == 2 {
        "2"
    } else if d == 3 {
        "3"
    } else if d == 4 {
        "4"
    } else if d == 5 {
        "5"
    } else if d == 6 {
        "6"
    } else if d == 7 {
        "7"
    } else if d == 8 {
        "8"
    } else {
        "9"
    };
    assert(s@ =~= seq![digit_char(d as int)]);
    s
}

/// Writes a number in decimal notation.
pub fn decimal_string(n: u64) -> (s: String)
    ensures
        s@ == decimal_text(n as nat),
    decreases n,
{
    if n < 10 {
        String::from_str(digit_str(n))
    } else {
        let mut s = decimal_string(n / 10);
        s.append(digit_str(n % 10));
        assert(s@ =~= decimal_text(n as nat));
        s
    }
}

/// Joins the parts of a list with a separator.
pub fn join(parts: &Vec<String>, sep: &str) -> (s: String)
    ensures
        s@ == joined(texts(parts@), sep@),
{
    let mut s = String::new();
    let mut i: usize = 0;
    while i < parts.len()
        invariant
            i <= parts.len(),
            s@ == joined(texts(parts@).take(i as int), sep@),
        decreases parts.len() - i,
    {
        let ghost before = texts(parts@).take(i as int);
        let ghost after = texts(parts@).take(i + 1);
        assert(after.drop_last() =~= before);
        assert(after.last() == parts@[i as int]@);
        if i > 0 {
            s.append(sep);
        } else {
            assert(s@ + parts@[i as int]@ =~= parts@[i as int]@);
        }
        s.append(parts[i].as_str());
        i += 1;
    }
    assert(texts(parts@).take(parts.len() as int) =~= texts(parts@));
    s
}

/// Writes a list of bytes as `[a, b, c]`.
pub fn byte_list_string(bytes: &Vec<u8>) -> (s: String)
    ensures
        s@ == byte_list_text(bytes@),
{
    let mut items: Vec<String> = Vec::new();
    let mut i: usize = 0;
    while i < bytes.len()
        invariant
            i <= bytes.len(),
            items.len() == i,
            forall|j: int| 0 <= j < i ==> (#[trigger] items@[j])@ == decimal_text(bytes@[j] as nat),
        decreases bytes.len() - i,
    {
        items.push(decimal_string(bytes[i] as u64));
        i += 1;
    }
    proof {
        reveal_strlit("[");
        reveal_strlit("]");
        reveal_strlit(", ");
        assert(texts(items@) =~= Seq::new(bytes@.len(), |i: int| decimal_text(bytes@[i] as nat)));
        assert("["@ =~= seq!['[']);
        assert("]"@ =~= seq![']']);
        assert(", "@ =~= seq![',', ' ']);
    }
    let mut s = String::from_str("[");
    let body = join(&items, ", ");
    s.append(body.as_str());
    s.append("]");
    s
}

/// Copies a list of strings.
pub fn clone_strings(v: &Vec<String>) -> (r: Vec<String>)
    ensures
        texts(r@) == texts(v@),
{
    let mut r: Vec<String> = Vec::new();
    let mut i: usize = 0;
    while i < v.len()
        invariant
            i <= v.len(),
            r.len() == i,
            forall|j: int| 0 <= j < i ==> (#[trigger] r@[j])@ == v@[j]@,
        decreases v.len() - i,
    {
        r.push(v[i].clone());
        i += 1;
    }
    assert(texts(r@) =~= texts(v@));
    r
}

/// A text as a string literal of the language: between double quotes, with
/// the characters escaped that cannot stand for themselves there.
pub uninterp spec fn debug_text(s: Seq<char>) -> Seq<char>;

/// Writes a text as a string literal, with std's `Debug` for `str`
/// (`format!("{:?}", s)`). The contract claims that the result is a function
/// of the text, which it names `debug_text`.
#[verifier::external_body]
pub(crate) fn debug_string(s: &str) -> (r: String)
    ensures
        r@ == debug_text(s@),
{
    format!("{:?}", s)
}

/// A list of texts as `["a", "b"]`, each text as a string literal.
pub open spec fn text_list_text(items: Seq<Seq<char>>) -> Seq<char> {
    seq!['['] + joined(Seq::new(items.len(), |i: int| debug_text(items[i])), seq![',', ' '])
        + seq![']']
}

/// Writes a list of texts as `["a", "b"]`.
pub fn text_list_string(items: &Vec<String>) -> (s: String)
    ensures
        s@ == text_list_text(texts(items@)),
{
    let mut quoted: Vec<String> = Vec::new();
    let mut i: usize = 0;
    while i < items.len()
        invariant
            i <= items.len(),
            quoted.len() == i,
            forall|j: int| 0 <= j < i ==> (#[trigger] quoted@[j])@ == debug_text(items@[j]@),
        decreases items.len() - i,
    {
        quoted.push(debug_string(items[i].as_str()));
        i += 1;
    }
    proof {
        reveal_strlit("[");
        reveal_strlit("]");
        reveal_strlit(", ");
        assert(texts(quoted@) =~= Seq::new(
            texts(items@).len(),
            |i: int| debug_text(texts(items@)[i]),
        ));
        assert("["@ =~= seq!['[']);
        assert("]"@ =~= seq![']']);
        assert(", "@ =~= seq![',', ' ']);
    }
    let mut s = String::from_str("[");
    let body = join(&quoted, ", ");
    s.append(body.as_str());
    s.append("]");
    s
}

/// The texts of a list, one after the other.
pub open spec fn concatenated(parts: Seq<Seq<char>>) -> Seq<char>
    decreases parts.len(),
{
    if parts.len() == 0 {
        Seq::empty()
    } else {
        concatenated(parts.drop_last()) + parts.last()
    }
}

} // verus!
