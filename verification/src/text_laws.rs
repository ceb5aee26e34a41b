//! What holds of texts, command lines and numbers in text, seen from their parts.
use vstd::prelude::*;

use crate::process::{attribute_value, cache_directory, command_line, program_word, start_outcome, StartSteps};
use crate::text::{
    after_star, cut_end, cut_start, decimal, file_name, has_space, is_space, joined, lemma_file_name,
    same_but_case, text_of, trimmed, under_root, unpadded, upper, views,
};
use crate::types::{Pid, Reason, UDbgError};

verus! {

/// Where a part of a list starts when the parts before it stand in front of it,
/// each with one character behind it.
pub open spec fn offset(parts: Seq<Seq<char>>, k: int) -> int
    decreases k,
{
    if k <= 0 {
        0
    } else {
        offset(parts, k - 1) + parts[k - 1].len() + 1
    }
}

proof fn lemma_offset_grows(parts: Seq<Seq<char>>, j: int, k: int)
    requires
        0 <= j <= k,
    ensures
        offset(parts, j) + (k - j) <= offset(parts, k),
        j < k ==> offset(parts, j) + parts[j].len() + 1 <= offset(parts, k),
    decreases k - j,
{
    if j < k {
        lemma_offset_grows(parts, j, k - 1);
    }
}

proof fn lemma_offset_same(a: Seq<Seq<char>>, b: Seq<Seq<char>>, k: int)
    requires
        0 <= k <= a.len(),
        k <= b.len(),
        forall|i: int| 0 <= i < k ==> a[i] == b[i],
    ensures
        offset(a, k) == offset(b, k),
    decreases k,
{
    if k > 0 {
        lemma_offset_same(a, b, k - 1);
    }
}

/// A joined text holds every part in its order: each stands whole behind those
/// before it, one blank lies between two, and there is nothing else.
pub proof fn lemma_joined(parts: Seq<Seq<char>>)
    ensures
        parts.len() == 0 ==> joined(parts) == Seq::<char>::empty(),
        parts.len() > 0 ==> joined(parts).len() + 1 == offset(parts, parts.len() as int),
        forall|k: int|
            #![trigger parts[k]]
            0 <= k < parts.len() ==> {
                let start = offset(parts, k);
                &&& 0 <= start
                &&& start + parts[k].len() <= joined(parts).len()
                &&& joined(parts).subrange(start, start + parts[k].len()) == parts[k]
                &&& k > 0 ==> joined(parts)[start - 1] == ' '
            },
    decreases parts.len(),
{
    if parts.len() == 1 {
        assert(offset(parts, 0) == 0);
        assert(offset(parts, 1) == parts[0].len() + 1);
        assert(parts[0].subrange(0, parts[0].len() as int) =~= parts[0]);
    } else if parts.len() > 1 {
        let init = parts.drop_last();
        let last = parts.len() - 1;
        lemma_joined(init);
        lemma_offset_same(parts, init, last);
        let all = joined(parts);
        assert(all.len() == joined(init).len() + 1 + parts[last].len());
        assert(offset(parts, parts.len() as int) == offset(parts, last) + parts[last].len() + 1);
        assert forall|k: int| #![trigger parts[k]] 0 <= k < parts.len() implies {
            let start = offset(parts, k);
            &&& 0 <= start
            &&& start + parts[k].len() <= all.len()
            &&& all.subrange(start, start + parts[k].len()) == parts[k]
            &&& k > 0 ==> all[start - 1] == ' '
        } by {
            let start = offset(parts, k);
            lemma_offset_grows(parts, 0, k);
            if k < last {
                lemma_offset_same(parts, init, k);
                assert(init[k] == parts[k]);
                assert(all.subrange(start, start + parts[k].len()) =~= joined(init).subrange(
                    start,
                    start + parts[k].len(),
                ));
            } else {
                assert(start == joined(init).len() + 1);
                assert(all.subrange(start, start + parts[k].len()) =~= parts[k]);
            }
        }
    }
}

/// The views of a list of texts are theirs, one for one.
pub proof fn lemma_views(parts: Seq<&str>)
    ensures
        views(parts).len() == parts.len(),
        forall|i: int| 0 <= i < parts.len() ==> #[trigger] views(parts)[i] == parts[i]@,
{
}

/// A command line starts with the program and holds every argument in its order,
/// each after a blank, and nothing else.
pub proof fn lemma_command_line(path: Seq<char>, args: Seq<Seq<char>>)
    ensures
        ({
            let line = command_line(path, args);
            let word = program_word(path);
            &&& word.is_prefix_of(line)
            &&& line.len() == word.len() + offset(args, args.len() as int)
            &&& forall|k: int|
                #![trigger args[k]]
                0 <= k < args.len() ==> {
                    let start = word.len() + 1 + offset(args, k);
                    &&& word.len() + 1 <= start
                    &&& start + args[k].len() <= line.len()
                    &&& line[start - 1] == ' '
                    &&& line.subrange(start, start + args[k].len()) == args[k]
                }
        }),
{
    let line = command_line(path, args);
    let word = program_word(path);
    lemma_joined(args);
    if args.len() == 0 {
        assert(offset(args, 0) == 0);
    } else {
        let tail = joined(args);
        assert(word =~= line.take(word.len() as int));
        assert forall|k: int| #![trigger args[k]] 0 <= k < args.len() implies {
            let start = word.len() + 1 + offset(args, k);
            &&& word.len() + 1 <= start
            &&& start + args[k].len() <= line.len()
            &&& line[start - 1] == ' '
            &&& line.subrange(start, start + args[k].len()) == args[k]
        } by {
            let at = offset(args, k);
            let start = word.len() + 1 + at;
            lemma_offset_grows(args, 0, k);
            assert(line.subrange(start, start + args[k].len()) =~= tail.subrange(
                at,
                at + args[k].len(),
            ));
            if k > 0 {
                assert(at >= k);
                assert(line[start - 1] == tail[at - 1]);
            } else {
                assert(at == 0);
            }
        }
    }
}

proof fn lemma_cut_start(s: Seq<char>, test: spec_fn(char) -> bool)
    ensures
        ({
            let r = cut_start(s, test);
            let from = s.len() - r.len();
            &&& 0 <= from
            &&& r == s.skip(from)
            &&& forall|i: int| 0 <= i < from ==> test(#[trigger] s[i])
            &&& r.len() > 0 ==> !test(r[0])
        }),
    decreases s.len(),
{
    if s.len() > 0 && test(s[0]) {
        let rest = s.skip(1);
        lemma_cut_start(rest, test);
        let r = cut_start(s, test);
        let from = s.len() - r.len();
        assert(rest.skip(from - 1) =~= s.skip(from));
        assert forall|i: int| 0 <= i < from implies test(#[trigger] s[i]) by {
            if i > 0 {
                assert(rest[i - 1] == s[i]);
            }
        }
    } else {
        assert(s.skip(0) =~= s);
    }
}

proof fn lemma_cut_end(s: Seq<char>, test: spec_fn(char) -> bool)
    ensures
        ({
            let r = cut_end(s, test);
            &&& r.len() <= s.len()
            &&& r == s.take(r.len() as int)
            &&& forall|i: int| r.len() <= i < s.len() ==> test(#[trigger] s[i])
            &&& r.len() > 0 ==> !test(r.last())
        }),
    decreases s.len(),
{
    if s.len() > 0 && test(s.last()) {
        let init = s.drop_last();
        lemma_cut_end(init, test);
        let r = cut_end(s, test);
        assert(init.take(r.len() as int) =~= s.take(r.len() as int));
        assert forall|i: int| r.len() <= i < s.len() implies test(#[trigger] s[i]) by {
            if i < init.len() {
                assert(init[i] == s[i]);
            }
        }
    } else {
        assert(s.take(s.len() as int) =~= s);
    }
}

/// Whether a text is what is left of another between two places.
pub open spec fn is_part(s: Seq<char>, part: Seq<char>, from: int, to: int) -> bool {
    0 <= from <= to <= s.len() && part == s.subrange(from, to)
}

/// Trimming takes away spaces at both ends, all of them, and nothing else.
pub proof fn lemma_trimmed(s: Seq<char>)
    ensures
        exists|from: int, to: int|
            {
                &&& #[trigger] is_part(s, trimmed(s), from, to)
                &&& forall|i: int| 0 <= i < from || to <= i < s.len() ==> is_space(#[trigger] s[i])
            },
        trimmed(s).len() > 0 ==> !is_space(trimmed(s).first()) && !is_space(trimmed(s).last()),
{
    let test = |c: char| is_space(c);
    let rest = cut_start(s, test);
    lemma_cut_start(s, test);
    lemma_cut_end(rest, test);
    let part = trimmed(s);
    let from = s.len() - rest.len();
    let to = from + part.len();
    assert(part =~= s.subrange(from, to));
    assert(is_part(s, part, from, to));
    assert forall|i: int| 0 <= i < from || to <= i < s.len() implies is_space(#[trigger] s[i]) by {
        if i < from {
            assert(test(s[i]));
        } else {
            assert(test(rest[i - from]));
        }
    }
    if part.len() > 0 {
        assert(!test(rest[0]) && part.first() == rest[0]);
        assert(!test(part.last()));
    }
}

/// Taking off the padding takes away spaces and zeros at both ends, all of them,
/// and nothing else.
pub proof fn lemma_unpadded(s: Seq<char>)
    ensures
        exists|from: int, to: int|
            {
                &&& #[trigger] is_part(s, unpadded(s), from, to)
                &&& forall|i: int|
                    0 <= i < from || to <= i < s.len() ==> is_space(#[trigger] s[i]) || s[i]
                        == '\0'
            },
        unpadded(s).len() > 0 ==> {
            &&& !is_space(unpadded(s).first())
            &&& !is_space(unpadded(s).last())
            &&& unpadded(s).first() != '\0'
            &&& unpadded(s).last() != '\0'
        },
{
    let test = |c: char| crate::text::is_padding(c);
    let rest = cut_start(s, test);
    lemma_cut_start(s, test);
    lemma_cut_end(rest, test);
    let part = unpadded(s);
    let from = s.len() - rest.len();
    let to = from + part.len();
    assert(part =~= s.subrange(from, to));
    assert(is_part(s, part, from, to));
    assert forall|i: int| 0 <= i < from || to <= i < s.len() implies is_space(#[trigger] s[i])
        || s[i] == '\0' by {
        if i < from {
            assert(test(s[i]));
        } else {
            assert(test(rest[i - from]));
        }
    }
    if part.len() > 0 {
        assert(!test(rest[0]) && part.first() == rest[0]);
        assert(!test(part.last()));
    }
}

/// The program of a command line is the path without the spaces around it, in
/// quotes exactly where a space is left inside.
pub proof fn lemma_program_word(path: Seq<char>)
    ensures
        (exists|i: int| 0 <= i < trimmed(path).len() && is_space(#[trigger] trimmed(path)[i]))
            ==> {
            let word = program_word(path);
            &&& word.len() == trimmed(path).len() + 2
            &&& word.first() == '"'
            &&& word.last() == '"'
            &&& word.subrange(1, word.len() - 1) == trimmed(path)
        },
        (forall|i: int| 0 <= i < trimmed(path).len() ==> !is_space(#[trigger] trimmed(path)[i]))
            ==> program_word(path) == trimmed(path),
{
    let word = program_word(path);
    if has_space(trimmed(path)) {
        assert(word.subrange(1, word.len() - 1) =~= trimmed(path));
    }
}

/// What a text of digits says in base ten.
pub open spec fn value(digits: Seq<char>) -> int
    decreases digits.len(),
{
    if digits.len() == 0 {
        0
    } else {
        10 * value(digits.drop_last()) + (digits.last() as u32 - '0' as u32)
    }
}

/// A number in decimal is made of digits that say the number in base ten, and
/// starts with no zero unless the number is one.
pub proof fn lemma_decimal(n: nat)
    ensures
        value(decimal(n)) == n,
        decimal(n).len() > 0,
        forall|i: int| 0 <= i < decimal(n).len() ==> '0' <= #[trigger] decimal(n)[i] <= '9',
        n > 0 ==> decimal(n)[0] != '0',
        n == 0 ==> decimal(n).len() == 1,
    decreases n,
{
    if n < 10 {
        assert(decimal(n).drop_last() =~= Seq::<char>::empty());
        assert(decimal(n).last() as u32 == 48 + n);
        assert(value(Seq::<char>::empty()) == 0);
    } else {
        let low = n % 10;
        lemma_decimal(n / 10);
        assert(decimal(n).drop_last() =~= decimal(n / 10));
        assert(decimal(n).last() as u32 == 48 + low);
        assert forall|i: int| 0 <= i < decimal(n).len() implies '0' <= #[trigger] decimal(n)[i]
            <= '9' by {
            if i < decimal(n / 10).len() {
                assert(decimal(n)[i] == decimal(n / 10)[i]);
            }
        }
        assert(decimal(n)[0] == decimal(n / 10)[0]);
    }
}

/// The part behind the first star ends at the next star or with the text; a text
/// without a star has none.
pub proof fn lemma_after_star(before: Seq<char>, part: Seq<char>, rest: Seq<char>)
    requires
        !before.contains('*'),
        !part.contains('*'),
    ensures
        after_star(before) is None,
        after_star(before + seq!['*'] + part) == Some(part),
        after_star(before + seq!['*'] + part + seq!['*'] + rest) == Some(part),
{
    let one = before + seq!['*'] + part;
    let two = one + seq!['*'] + rest;
    let at = before.len() as int;
    assert(one[at] == '*' && two[at] == '*');
    one.index_of_first_ensures('*');
    two.index_of_first_ensures('*');
    let i = one.index_of_first('*').unwrap();
    let j = two.index_of_first('*').unwrap();
    assert(i == at) by {
        if i < at {
            assert(before[i] == '*');
        }
    }
    assert(j == at) by {
        if j < at {
            assert(before[j] == '*');
        }
    }
    assert(one.skip(at + 1) =~= part);
    let tail = two.skip(at + 1);
    assert(tail =~= part + seq!['*'] + rest);
    assert(tail[part.len() as int] == '*');
    tail.index_of_first_ensures('*');
    let k = tail.index_of_first('*').unwrap();
    assert(k == part.len()) by {
        if k < part.len() {
            assert(part[k] == '*');
        }
    }
    assert(tail.take(k) =~= part);
}

/// Where a directory is as many bytes long as characters, a path lies under it
/// exactly where its first characters are those of the directory but for case.
pub proof fn lemma_under_root(root: Seq<char>, path: Seq<char>)
    ensures
        under_root(root, root.len(), path) <==> root.len() <= path.len() && forall|i: int|
            0 <= i < root.len() ==> upper(#[trigger] root[i]) == upper(path[i]),
        forall|tail: Seq<char>| under_root(root, root.len(), #[trigger] (root + tail)),
{
    let f = |c: char| upper(c);
    if root.len() <= path.len() {
        let start = path.take(root.len() as int);
        if forall|i: int| 0 <= i < root.len() ==> upper(#[trigger] root[i]) == upper(path[i]) {
            assert(root.map_values(f) =~= start.map_values(f));
        }
        if same_but_case(root, start) {
            assert forall|i: int| 0 <= i < root.len() implies upper(#[trigger] root[i]) == upper(
                path[i],
            ) by {
                assert(root.map_values(f)[i] == start.map_values(f)[i]);
            }
        }
    } else {
        assert(root.map_values(f).len() != path.take(path.len() as int).map_values(f).len());
    }
    assert forall|tail: Seq<char>| under_root(root, root.len(), #[trigger] (root + tail)) by {
        assert((root + tail).take(root.len() as int) =~= root);
    }
}

/// The file name of a path is what stands behind the last slash of either kind.
pub proof fn lemma_name_behind_slash(directory: Seq<char>, name: Seq<char>)
    requires
        !name.contains('/'),
        !name.contains('\\'),
    ensures
        file_name(name) == name,
        file_name(directory + seq!['/'] + name) == name,
        file_name(directory + seq!['\\'] + name) == name,
{
    let start = directory.len() as int + 1;
    assert(name.skip(0) =~= name);
    assert((directory + seq!['/'] + name).skip(start) =~= name);
    assert((directory + seq!['\\'] + name).skip(start) =~= name);
    lemma_named(name, 0);
    lemma_named(directory + seq!['/'] + name, start);
    lemma_named(directory + seq!['\\'] + name, start);
}

proof fn lemma_named(path: Seq<char>, start: int)
    requires
        0 <= start <= path.len(),
        !path.skip(start).contains('/'),
        !path.skip(start).contains('\\'),
        start > 0 ==> path[start - 1] == '/' || path[start - 1] == '\\',
    ensures
        file_name(path) == path.skip(start),
{
    let name = file_name(path);
    lemma_file_name(path);
    let at = path.len() - name.len();
    if at > start {
        assert(path.skip(start)[at - 1 - start] == path[at - 1]);
    }
    if at < start {
        assert(name[start - 1 - at] == path[start - 1]);
    }
}

/// Bytes that encode a text are read as that text; bytes that encode none are
/// read as nothing.
pub proof fn lemma_text_of(bytes: Seq<u8>, text: Seq<char>)
    ensures
        text_of(vstd::utf8::encode_utf8(text)) == text,
        !vstd::utf8::valid_utf8(bytes) ==> text_of(bytes).len() == 0,
{
    vstd::utf8::encode_utf8_valid_utf8(text);
    vstd::utf8::encode_utf8_decode_utf8(text);
}

/// The parts of a start-up attribute stand in bits of their own.
pub proof fn lemma_attribute(number: usize, thread: usize, input: usize, additive: usize)
    ensures
        ({
            let v = attribute_value(number, thread, input, additive);
            &&& v & 0xffff == number & 0xffff
            &&& v & 0x10000 == (if thread != 0 {
                0x10000usize
            } else {
                0
            })
            &&& v & 0x20000 == (if input != 0 {
                0x20000usize
            } else {
                0
            })
            &&& v & 0x40000 == (if additive != 0 {
                0x40000usize
            } else {
                0
            })
            &&& v < 0x80000
        }),
{
    let v = attribute_value(number, thread, input, additive);
    assert(v & 0xffff == number & 0xffff && v & 0x10000 == (if thread != 0 {
        0x10000usize
    } else {
        0
    }) && v & 0x20000 == (if input != 0 {
        0x20000usize
    } else {
        0
    }) && v & 0x40000 == (if additive != 0 {
        0x40000usize
    } else {
        0
    }) && v < 0x80000) by (bit_vector)
        requires
            v == (number & 0xffff) | (if thread != 0 {
                0x10000usize
            } else {
                0
            }) | (if input != 0 {
                0x20000usize
            } else {
                0
            }) | (if additive != 0 {
                0x40000usize
            } else {
                0
            }),
    ;
}

/// A start succeeds exactly where every step that it needs did, and then gives
/// the process; otherwise the first step that failed is named.
pub proof fn lemma_start(ppid: Option<Pid>, steps: StartSteps)
    ensures
        ({
            let r = start_outcome(ppid, steps);
            let parented = ppid is None || (steps.parent_opened && steps.parent_set);
            &&& r is Ok <==> parented && steps.created && steps.process is Some
            &&& r is Ok ==> Some(r->Ok_0) == steps.process
            &&& r is Err ==> r->Err_0 == (if ppid is Some && !steps.parent_opened {
                UDbgError::Text(Reason::ParentOpen)
            } else if !parented {
                UDbgError::Text(Reason::ParentSet)
            } else if !steps.created {
                UDbgError::System(steps.code)
            } else {
                UDbgError::Text(Reason::GetPid)
            })
        }),
{
}

/// The cache of symbols lies where it was configured; else behind the first star
/// of the symbol path; else nowhere.
pub proof fn lemma_cache_directory(
    before: Seq<char>,
    part: Seq<char>,
    rest: Seq<char>,
)
    requires
        !before.contains('*'),
        !part.contains('*'),
    ensures
        forall|dir: Seq<char>, path: Option<Seq<char>>| #[trigger]
            cache_directory(Some(dir), path) == dir,
        cache_directory(None, Some(before + seq!['*'] + part)) == part,
        cache_directory(None, Some(before + seq!['*'] + part + seq!['*'] + rest)) == part,
        cache_directory(None, Some(before)) == Seq::<char>::empty(),
        cache_directory(None, None) == Seq::<char>::empty(),
{
    lemma_after_star(before, part, rest);
}

} // verus!
