//! Text: paths, command lines, numbers.
use vstd::prelude::*;
use vstd::string::*;

verus! {

/// Whether a character has the Unicode property `White_Space`.
pub open spec fn is_space(c: char) -> bool {
    ||| '\u{9}' <= c && c <= '\u{d}'
    ||| c == ' '
    ||| c == '\u{85}'
    ||| c == '\u{a0}'
    ||| c == '\u{1680}'
    ||| '\u{2000}' <= c && c <= '\u{200a}'
    ||| c == '\u{2028}'
    ||| c == '\u{2029}'
    ||| c == '\u{202f}'
    ||| c == '\u{205f}'
    ||| c == '\u{3000}'
}

/// `char::is_whitespace` of the standard library: whether the character has the
/// Unicode property `White_Space`.
pub assume_specification[ char::is_whitespace ](c: char) -> (r: bool)
    ensures
        r == is_space(c),
;

/// A letter of ASCII in upper case; any other character as it is.
pub open spec fn upper(c: char) -> char {
    if 'a' <= c && c <= 'z' {
        (c as u32 - 32) as char
    } else {
        c
    }
}

/// `str::to_ascii_uppercase` of the standard library: a copy with each ASCII
/// letter in upper case and nothing else changed.
pub assume_specification[ str::to_ascii_uppercase ](s: &str) -> (r: String)
    ensures
        r@ == s@.map_values(|c: char| upper(c)),
;

/// Whether two texts are the same but for the case of ASCII letters.
pub open spec fn same_but_case(a: Seq<char>, b: Seq<char>) -> bool {
    a.map_values(|c: char| upper(c)) == b.map_values(|c: char| upper(c))
}

/// Equality of `unicase::Ascii`: the texts are compared without regard to the
/// case of ASCII letters, and exactly in everything else.
#[verifier::external_body]
fn ascii_eq(a: &str, b: &str) -> (r: bool)
    ensures
        r == same_but_case(a@, b@),
{
    unicase::Ascii::new(a) == b
}

/// Whether a text starts with as many characters as `root` is bytes long, the
/// same as `root` but for case.
pub open spec fn under_root(root: Seq<char>, root_bytes: nat, path: Seq<char>) -> bool {
    let n = if root_bytes <= path.len() {
        root_bytes as int
    } else {
        path.len() as int
    };
    same_but_case(root, path.take(n))
}

/// Whether a path lies under a directory, by the first characters of it.
pub fn is_under(root: &str, path: &str) -> (r: bool)
    ensures
        r == under_root(root@, root.spec_bytes().len(), path@),
{
    let bytes: usize = root.as_bytes().len();
    let chars: usize = path.unicode_len();
    let n: usize = if bytes <= chars {
        bytes
    } else {
        chars
    };
    let start = path.substring_char(0, n);
    assert(start@ =~= path@.take(n as int));
    ascii_eq(root, start)
}

/// `std::str::from_utf8` of the standard library: bytes that are valid UTF-8 are
/// the text they encode, others are refused.
#[verifier::external_body]
fn utf8(bytes: &[u8]) -> (r: Option<String>)
    ensures
        match r {
            Some(s) => vstd::utf8::valid_utf8(bytes@) && s@ == vstd::utf8::decode_utf8(bytes@),
            None => !vstd::utf8::valid_utf8(bytes@),
        },
{
    std::str::from_utf8(bytes).ok().map(String::from)
}

/// What bytes say as UTF-8; nothing, where they are no UTF-8.
pub open spec fn text_of(bytes: Seq<u8>) -> Seq<char> {
    if vstd::utf8::valid_utf8(bytes) {
        vstd::utf8::decode_utf8(bytes)
    } else {
        Seq::empty()
    }
}

/// What bytes say as UTF-8; nothing, where they are no UTF-8.
pub fn utf8_or_empty(bytes: &[u8]) -> (r: String)
    ensures
        r@ == text_of(bytes@),
{
    match utf8(bytes) {
        Some(s) => s,
        None => String::new(),
    }
}

/// Whether a character parts the names in a path.
pub open spec fn is_separator(c: char) -> bool {
    c == '\\' || c == '/'
}

/// The part of a path after its last separator.
pub open spec fn file_name(path: Seq<char>) -> Seq<char>
    decreases path.len(),
{
    if path.len() == 0 || is_separator(path.last()) {
        Seq::empty()
    } else {
        file_name(path.drop_last()).push(path.last())
    }
}

/// The file name is the end of the path, holds no separator, and what stands
/// before it is one.
pub proof fn lemma_file_name(path: Seq<char>)
    ensures
        ({
            let name = file_name(path);
            let start = path.len() - name.len();
            &&& 0 <= start
            &&& name == path.skip(start)
            &&& forall|i: int| 0 <= i < name.len() ==> !is_separator(#[trigger] name[i])
            &&& start > 0 ==> is_separator(path[start - 1])
        }),
    decreases path.len(),
{
    if path.len() == 0 || is_separator(path.last()) {
        assert(path.skip(path.len() as int) =~= Seq::<char>::empty());
    } else {
        lemma_file_name(path.drop_last());
        let inner = file_name(path.drop_last());
        let start = path.len() - 1 - inner.len();
        assert(path.drop_last().skip(start).push(path.last()) =~= path.skip(start));
        assert forall|i: int| 0 <= i < file_name(path).len() implies !is_separator(
            #[trigger] file_name(path)[i],
        ) by {
            if i < inner.len() {
                assert(!is_separator(inner[i]));
            }
        }
    }
}

/// The part of a path after its last separator.
pub fn name_of(path: &str) -> (r: &str)
    ensures
        r@ == file_name(path@),
{
    let len: usize = path.unicode_len();
    let mut i: usize = len;
    let ghost whole = path@;
    assert(whole.take(len as int) =~= whole);
    assert(file_name(whole) =~= file_name(whole.take(i as int)) + whole.skip(i as int));
    while i > 0
        invariant
            i <= len,
            len == path@.len(),
            whole == path@,
            file_name(whole) == file_name(whole.take(i as int)) + whole.skip(i as int),
        decreases i,
    {
        let c: char = path.get_char(i - 1);
        assert(whole.take(i as int).last() == c);
        if c == '\\' || c == '/' {
            assert(file_name(whole) =~= whole.subrange(i as int, len as int));
            return path.substring_char(i, len);
        }
        assert(whole.take(i as int).drop_last() =~= whole.take(i - 1));
        assert(file_name(whole.take(i - 1)).push(c) + whole.skip(i as int) =~= file_name(
            whole.take(i - 1),
        ) + whole.skip(i - 1));
        i -= 1;
    }
    assert(file_name(whole) =~= whole);
    path
}

/// Whether a character is cut off the ends of a name out of an image.
pub open spec fn is_padding(c: char) -> bool {
    is_space(c) || c == '\0'
}

/// A text without the characters at its start that a test accepts.
pub open spec fn cut_start(s: Seq<char>, test: spec_fn(char) -> bool) -> Seq<char>
    decreases s.len(),
{
    if s.len() > 0 && test(s[0]) {
        cut_start(s.skip(1), test)
    } else {
        s
    }
}

/// A text without the characters at its end that a test accepts.
pub open spec fn cut_end(s: Seq<char>, test: spec_fn(char) -> bool) -> Seq<char>
    decreases s.len(),
{
    if s.len() > 0 && test(s.last()) {
        cut_end(s.drop_last(), test)
    } else {
        s
    }
}

/// A text without spaces around it.
pub open spec fn trimmed(s: Seq<char>) -> Seq<char> {
    cut_end(cut_start(s, |c: char| is_space(c)), |c: char| is_space(c))
}

/// A text without spaces and zeros around it.
pub open spec fn unpadded(s: Seq<char>) -> Seq<char> {
    cut_end(cut_start(s, |c: char| is_padding(c)), |c: char| is_padding(c))
}

fn is_cut(c: char, zeros: bool) -> (r: bool)
    ensures
        r == (if zeros {
            is_padding(c)
        } else {
            is_space(c)
        }),
{
    c.is_whitespace() || (zeros && c == '\0')
}

/// Which characters are cut off.
pub open spec fn cut_test(zeros: bool) -> spec_fn(char) -> bool {
    if zeros {
        |c: char| is_padding(c)
    } else {
        |c: char| is_space(c)
    }
}

fn cut(s: &str, zeros: bool) -> (r: &str)
    ensures
        r@ == cut_end(cut_start(s@, cut_test(zeros)), cut_test(zeros)),
{
    let len: usize = s.unicode_len();
    let ghost whole = s@;
    let ghost test = cut_test(zeros);
    let mut from: usize = 0;
    assert(whole.skip(0) =~= whole);
    while from < len && is_cut(s.get_char(from), zeros)
        invariant
            from <= len,
            len == s@.len(),
            whole == s@,
            test == cut_test(zeros),
            cut_start(whole, test) == cut_start(whole.skip(from as int), test),
        decreases len - from,
    {
        assert(whole.skip(from as int)[0] == whole[from as int]);
        assert(whole.skip(from as int).skip(1) =~= whole.skip(from + 1));
        from += 1;
    }
    assert(cut_start(whole, test) =~= whole.skip(from as int)) by {
        if from < len {
            assert(whole.skip(from as int)[0] == whole[from as int]);
        }
    }
    let ghost rest = whole.skip(from as int);
    let mut to: usize = len;
    assert(rest =~= whole.subrange(from as int, len as int));
    while to > from && is_cut(s.get_char(to - 1), zeros)
        invariant
            from <= to <= len,
            len == s@.len(),
            whole == s@,
            test == cut_test(zeros),
            cut_end(rest, test) == cut_end(whole.subrange(from as int, to as int), test),
        decreases to - from,
    {
        let ghost part = whole.subrange(from as int, to as int);
        assert(part.last() == whole[to - 1]);
        assert(part.drop_last() =~= whole.subrange(from as int, to - 1));
        to -= 1;
    }
    assert(cut_end(rest, test) =~= whole.subrange(from as int, to as int)) by {
        if from < to {
            assert(whole.subrange(from as int, to as int).last() == whole[to - 1]);
        }
    }
    s.substring_char(from, to)
}

/// A text without spaces around it.
pub fn trim(s: &str) -> (r: &str)
    ensures
        r@ == trimmed(s@),
{
    cut(s, false)
}

/// A text without spaces and zeros around it.
pub fn trim_padding(s: &str) -> (r: &str)
    ensures
        r@ == unpadded(s@),
{
    cut(s, true)
}

/// Whether a text holds a space.
pub open spec fn has_space(s: Seq<char>) -> bool {
    exists|i: int| 0 <= i < s.len() && is_space(#[trigger] s[i])
}

/// Whether a text holds a space.
pub fn holds_space(s: &str) -> (r: bool)
    ensures
        r == has_space(s@),
{
    let len: usize = s.unicode_len();
    let mut i: usize = 0;
    while i < len
        invariant
            i <= len,
            len == s@.len(),
            forall|j: int| 0 <= j < i ==> !is_space(#[trigger] s@[j]),
        decreases len - i,
    {
        let c: char = s.get_char(i);
        if c.is_whitespace() {
            assert(is_space(s@[i as int]));
            return true;
        }
        i += 1;
    }
    false
}

/// The texts of a list, one after the other, with a blank between them.
pub open spec fn joined(parts: Seq<Seq<char>>) -> Seq<char>
    decreases parts.len(),
{
    if parts.len() == 0 {
        Seq::empty()
    } else if parts.len() == 1 {
        parts[0]
    } else {
        joined(parts.drop_last()) + seq![' '] + parts.last()
    }
}

/// The views of a list of texts.
pub open spec fn views(parts: Seq<&str>) -> Seq<Seq<char>> {
    parts.map_values(|s: &str| s@)
}

/// Puts the texts of a list behind a text, each after a blank.
pub fn append_all(start: String, parts: &[&str]) -> (r: String)
    ensures
        r@ == (if parts@.len() == 0 {
            start@
        } else {
            start@ + seq![' '] + joined(views(parts@))
        }),
{
    let mut text = start;
    let ghost all = views(parts@);
    let mut i: usize = 0;
    while i < parts.len()
        invariant
            i <= parts@.len(),
            all == views(parts@),
            text@ == (if i == 0 {
                start@
            } else {
                start@ + seq![' '] + joined(all.take(i as int))
            }),
        decreases parts@.len() - i,
    {
        let ghost before = text@;
        text.append(" ");
        text.append(parts[i]);
        proof {
            reveal_strlit(" ");
            assert(" "@ =~= seq![' ']);
            assert(all.take(i + 1).drop_last() =~= all.take(i as int));
            assert(all.take(i + 1).last() == parts@[i as int]@);
            if i > 0 {
                assert(text@ =~= start@ + seq![' '] + (joined(all.take(i as int)) + seq![' ']
                    + parts@[i as int]@));
            } else {
                assert(all.take(1)[0] == parts@[0]@);
                assert(text@ =~= start@ + seq![' '] + parts@[0]@);
            }
        }
        i += 1;
    }
    assert(all.take(i as int) =~= all);
    text
}

/// The digit of a number below ten.
pub open spec fn digit(n: nat) -> char {
    (48 + n) as char
}

/// A number in decimal.
pub open spec fn decimal(n: nat) -> Seq<char>
    decreases n,
{
    if n < 10 {
        seq![digit(n)]
    } else {
        decimal(n / 10).push(digit(n % 10))
    }
}

/// The digit of a number below ten.
fn digit_text(n: usize) -> (r: &'static str)
    requires
        n < 10,
    ensures
        r@ == seq![digit(n as nat)],
{
    proof {
        reveal_strlit("0");
        reveal_strlit("1");
        reveal_strlit("2");
        reveal_strlit("3");
        reveal_strlit("4");
        reveal_strlit("5");
        reveal_strlit("6");
        reveal_strlit("7");
        reveal_strlit("8");
        reveal_strlit("9");
    }
    let r = match n {
        0 => "0",
        1 => "1",
        2 => "2",
        3 => "3",
        4 => "4",
        5 => "5",
        6 => "6",
        7 => "7",
        8 => "8",
        _ => "9",
    };
    assert(r@ =~= seq![digit(n as nat)]);
    r
}

/// A number in decimal.
pub fn to_decimal(n: usize) -> (r: String)
    ensures
        r@ == decimal(n as nat),
    decreases n,
{
    if n < 10 {
        digit_text(n).to_owned()
    } else {
        let mut text = to_decimal(n / 10);
        let ghost start = text@;
        text.append(digit_text(n % 10));
        assert(text@ =~= start.push(digit((n % 10) as nat)));
        text
    }
}

/// The text between the first and the second `*` of a text, or after the first
/// where there is no second.
pub open spec fn after_star(s: Seq<char>) -> Option<Seq<char>> {
    if s.contains('*') {
        let first = s.index_of_first('*').unwrap();
        let rest = s.skip(first + 1);
        Some(
            if rest.contains('*') {
                rest.take(rest.index_of_first('*').unwrap())
            } else {
                rest
            },
        )
    } else {
        None
    }
}

/// Where a character first stands in a text, from some place on.
fn find_char(s: &str, c: char, from: usize) -> (r: Option<usize>)
    requires
        from <= s@.len(),
    ensures
        match r {
            Some(i) => {
                &&& from <= i < s@.len()
                &&& s@[i as int] == c
                &&& forall|j: int| from <= j < i ==> s@[j] != c
            },
            None => forall|j: int| from <= j < s@.len() ==> s@[j] != c,
        },
{
    let len: usize = s.unicode_len();
    let mut i: usize = from;
    while i < len
        invariant
            from <= i <= len,
            len == s@.len(),
            forall|j: int| from <= j < i ==> s@[j] != c,
        decreases len - i,
    {
        if s.get_char(i) == c {
            return Some(i);
        }
        i += 1;
    }
    None
}

/// The second of the parts that `*` cuts a text into.
pub fn second_part(s: &str) -> (r: Option<String>)
    ensures
        match r {
            Some(t) => after_star(s@) == Some(t@),
            None => after_star(s@) is None,
        },
{
    broadcast use vstd::seq_lib::group_seq_properties;

    let len: usize = s.unicode_len();
    match find_char(s, '*', 0) {
        None => None,
        Some(i) => {
            assert(s@[i as int] == '*');
            proof {
                s@.index_of_first_ensures('*');
                assert(s@.index_of_first('*') == Some(i as int));
            }
            let ghost rest = s@.skip(i + 1);
            let to: usize = match find_char(s, '*', i + 1) {
                Some(j) => {
                    proof {
                        assert(rest[j - i - 1] == '*');
                        rest.index_of_first_ensures('*');
                        let k = rest.index_of_first('*').unwrap();
                        assert(rest[k] == s@[k + i + 1]);
                        assert(k == j - i - 1);
                    }
                    j
                },
                None => {
                    assert(!rest.contains('*')) by {
                        assert forall|k: int| 0 <= k < rest.len() implies rest[k] != '*' by {
                            assert(rest[k] == s@[k + i + 1]);
                        }
                    }
                    len
                },
            };
            let part = s.substring_char(i + 1, to);
            assert(part@ =~= after_star(s@).unwrap());
            Some(part.to_owned())
        },
    }
}

} // verus!
