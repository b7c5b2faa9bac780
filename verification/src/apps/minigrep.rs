//! Searching a text for the lines that hold a query.

use vstd::prelude::*;
use std::str::Lines;

verus! {

/// The iterator that `str::lines` returns.
#[verifier::external_type_specification]
#[verifier::external_body]
pub struct ExLines<'a>(Lines<'a>);

/// What to search for, where, and how.
pub struct Config {
    pub query: String,
    pub file_path: String,
    pub ignore_case: bool,
}

impl Config {
    /// The configuration that the arguments spell: the program's name, the
    /// query, the file's path. Case is ignored.
    pub fn new(args: &[String]) -> (r: Config)
        requires
            args@.len() >= 3,
        ensures
            r.query@ == args@[1]@,
            r.file_path@ == args@[2]@,
            r.ignore_case,
    {
        let query = args[1].clone();
        let file_path = args[2].clone();
        Config { query, file_path, ignore_case: true }
    }

    /// The configuration that the arguments spell, or what is missing:
    /// after the program's name come the query and the file's path.
    pub fn build(args: &[String], ignore_case: bool) -> (r: Result<Config, &'static str>)
        ensures
            args@.len() < 2 ==> r is Err && r->Err_0@ == "didn't get a query string"@,
            args@.len() == 2 ==> r is Err && r->Err_0@ == "didn't get a file path"@,
            args@.len() >= 3 ==> r is Ok && r->Ok_0.query@ == args@[1]@ && r->Ok_0.file_path@
                == args@[2]@ && r->Ok_0.ignore_case == ignore_case,
    {
        if args.len() < 2 {
            return Err("didn't get a query string");
        }
        let query = args[1].clone();
        if args.len() < 3 {
            return Err("didn't get a file path");
        }
        let file_path = args[2].clone();
        Ok(Config { query, file_path, ignore_case })
    }

    /// As `build`, with one message for every missing argument.
    pub fn build_deprecated(args: &[String], ignore_case: bool) -> (r: Result<
        Config,
        &'static str,
    >)
        ensures
            args@.len() < 3 ==> r is Err && r->Err_0@ == "not enough arguments"@,
            args@.len() >= 3 ==> r is Ok && r->Ok_0.query@ == args@[1]@ && r->Ok_0.file_path@
                == args@[2]@ && r->Ok_0.ignore_case == ignore_case,
    {
        if args.len() < 3 {
            return Err("not enough arguments");
        }
        let query = args[1].clone();
        let file_path = args[2].clone();
        Ok(Config { query, file_path, ignore_case })
    }
}

/// The query and the file's path among the arguments.
pub fn parse_config_deprecated(args: &[String]) -> (r: (&str, &str))
    requires
        args@.len() >= 3,
    ensures
        r.0@ == args@[1]@,
        r.1@ == args@[2]@,
{
    (args[1].as_str(), args[2].as_str())
}

/// The lines of a text, as `str::lines` cuts them.
pub uninterp spec fn lines_of(text: Seq<char>) -> Seq<Seq<char>>;

/// A text in lower case, as `str::to_lowercase` writes it.
pub uninterp spec fn lowercase_of(text: Seq<char>) -> Seq<char>;

/// Whether `needle` stands somewhere in `hay`.
pub open spec fn occurs_in(needle: Seq<char>, hay: Seq<char>) -> bool {
    exists|i: int|
        0 <= i <= hay.len() - needle.len() && #[trigger] hay.subrange(i, i + needle.len())
            == needle
}

/// The texts that a vector of string slices holds.
pub open spec fn texts(lines: Seq<&str>) -> Seq<Seq<char>> {
    lines.map_values(|l: &str| l@)
}

/// The lines that an iterator has yet to hand out, in order.
pub uninterp spec fn remaining(lines: Lines<'_>) -> Seq<Seq<char>>;

/// `str::lines`: an iterator that has all the lines of the text to hand out.
#[verifier::external_body]
fn lines_iter<'a>(contents: &'a str) -> (r: Lines<'a>)
    ensures
        remaining(r) == lines_of(contents@),
{
    contents.lines()
}

/// `Lines::next`: hands out the first of the remaining lines, or `None` once
/// none remains.
#[verifier::external_body]
fn next_line<'a>(lines: &mut Lines<'a>) -> (r: Option<&'a str>)
    ensures
        match r {
            Some(line) => {
                &&& remaining(*old(lines)).len() > 0
                &&& line@ == remaining(*old(lines))[0]
                &&& remaining(*final(lines)) == remaining(*old(lines)).drop_first()
            },
            None => {
                &&& remaining(*old(lines)).len() == 0
                &&& remaining(*final(lines)) == remaining(*old(lines))
            },
        },
{
    lines.next()
}

/// The lines of a text, in order.
pub fn lines<'a>(contents: &'a str) -> (r: Vec<&'a str>)
    ensures
        texts(r@) == lines_of(contents@),
{
    let mut rest = lines_iter(contents);
    let mut found: Vec<&'a str> = Vec::new();
    assert(texts(found@) + remaining(rest) =~= lines_of(contents@));
    loop
        invariant
            texts(found@) + remaining(rest) == lines_of(contents@),
        ensures
            texts(found@) == lines_of(contents@),
        decreases remaining(rest).len(),
    {
        let ghost before = found@;
        let ghost left = remaining(rest);
        match next_line(&mut rest) {
            Some(line) => {
                found.push(line);
                assert(texts(found@) =~= texts(before).push(line@));
                assert(texts(found@) + remaining(rest) =~= texts(before) + left);
            },
            None => {
                assert(texts(found@) + remaining(rest) =~= texts(found@));
                break ;
            },
        }
    }
    found
}

/// `str::contains` with a string as the pattern: whether `needle` is a
/// substring of `hay`.
#[verifier::external_body]
fn contains(hay: &str, needle: &str) -> (r: bool)
    ensures
        r == occurs_in(needle@, hay@),
{
    hay.contains(needle)
}

/// `str::to_lowercase`: the text in lower case.
#[verifier::external_body]
fn to_lowercase(text: &str) -> (r: String)
    ensures
        r@ == lowercase_of(text@),
{
    text.to_lowercase()
}

/// Those of `lines` that hold `query`, in their order.
pub fn filter_lines<'a>(query: &str, lines: Vec<&'a str>) -> (r: Vec<&'a str>)
    ensures
        texts(r@) == texts(lines@).filter(|l: Seq<char>| occurs_in(query@, l)),
{
    let ghost holds = |l: Seq<char>| occurs_in(query@, l);
    let mut results: Vec<&'a str> = Vec::new();
    let mut i: usize = 0;
    assert(texts(lines@).take(0) =~= Seq::<Seq<char>>::empty());
    assert(texts(results@) =~= Seq::<Seq<char>>::empty());
    while i < lines.len()
        invariant
            i <= lines@.len(),
            holds == (|l: Seq<char>| occurs_in(query@, l)),
            texts(results@) == texts(lines@).take(i as int).filter(holds),
        decreases lines@.len() - i,
    {
        let line: &'a str = lines[i];
        proof {
            reveal(Seq::filter);
            assert(texts(lines@).take(i + 1).drop_last() =~= texts(lines@).take(i as int));
            assert(texts(lines@).take(i + 1).last() == line@);
        }
        if contains(line, query) {
            let ghost prev = results@;
            results.push(line);
            assert(texts(results@) =~= texts(prev).push(line@));
        }
        i = i + 1;
    }
    assert(texts(lines@).take(lines@.len() as int) =~= texts(lines@));
    results
}

/// The texts that a vector of strings holds.
pub open spec fn string_texts(keys: Seq<String>) -> Seq<Seq<char>> {
    keys.map_values(|k: String| k@)
}

/// Those of `lines` whose key holds `query`, in their order; the key of a
/// line stands at the line's place in `keys`.
pub open spec fn picked(query: Seq<char>, keys: Seq<Seq<char>>, lines: Seq<Seq<char>>) -> Seq<
    Seq<char>,
>
    decreases lines.len(),
{
    if lines.len() == 0 || keys.len() != lines.len() {
        Seq::empty()
    } else {
        let rest = picked(query, keys.drop_last(), lines.drop_last());
        if occurs_in(query, keys.last()) {
            rest.push(lines.last())
        } else {
            rest
        }
    }
}

/// Whether a line holds `query` once the line is written in lower case.
pub open spec fn holds_lowercased(query: Seq<char>) -> spec_fn(Seq<char>) -> bool {
    |l: Seq<char>| occurs_in(query, lowercase_of(l))
}

/// To pick by the lines in lower case is to filter the lines.
pub proof fn lemma_picked_is_filter(
    query: Seq<char>,
    keys: Seq<Seq<char>>,
    lines: Seq<Seq<char>>,
)
    requires
        keys == lines.map_values(|l: Seq<char>| lowercase_of(l)),
    ensures
        picked(query, keys, lines) == lines.filter(holds_lowercased(query)),
    decreases lines.len(),
{
    reveal(Seq::filter);
    if lines.len() > 0 {
        assert(keys.drop_last() =~= lines.drop_last().map_values(|l: Seq<char>| lowercase_of(l)));
        lemma_picked_is_filter(query, keys.drop_last(), lines.drop_last());
    }
}

/// Each of `lines` in lower case.
pub fn lowercase_all(lines: &Vec<&str>) -> (r: Vec<String>)
    ensures
        string_texts(r@) == texts(lines@).map_values(|l: Seq<char>| lowercase_of(l)),
{
    let mut lowered: Vec<String> = Vec::new();
    let mut i: usize = 0;
    while i < lines.len()
        invariant
            i <= lines@.len(),
            lowered@.len() == i,
            forall|j: int| 0 <= j < i ==> (#[trigger] lowered@[j])@ == lowercase_of(lines@[j]@),
        decreases lines@.len() - i,
    {
        lowered.push(to_lowercase(lines[i]));
        i = i + 1;
    }
    assert(string_texts(lowered@) =~= texts(lines@).map_values(|l: Seq<char>| lowercase_of(l)));
    lowered
}

/// Those of `lines` whose key holds `query`, in their order; the key of a
/// line stands at the line's place in `keys`.
pub fn pick_lines<'a>(query: &str, keys: &Vec<String>, lines: Vec<&'a str>) -> (r: Vec<&'a str>)
    requires
        keys@.len() == lines@.len(),
    ensures
        texts(r@) == picked(query@, string_texts(keys@), texts(lines@)),
{
    let mut results: Vec<&'a str> = Vec::new();
    let mut i: usize = 0;
    assert(texts(results@) =~= Seq::<Seq<char>>::empty());
    while i < lines.len()
        invariant
            i <= lines@.len(),
            keys@.len() == lines@.len(),
            texts(results@) == picked(
                query@,
                string_texts(keys@).take(i as int),
                texts(lines@).take(i as int),
            ),
        decreases lines@.len() - i,
    {
        let line: &'a str = lines[i];
        proof {
            assert(texts(lines@).take(i + 1).drop_last() =~= texts(lines@).take(i as int));
            assert(string_texts(keys@).take(i + 1).drop_last() =~= string_texts(keys@).take(
                i as int,
            ));
            assert(texts(lines@).take(i + 1).last() == line@);
            assert(string_texts(keys@).take(i + 1).last() == keys@[i as int]@);
        }
        if contains(keys[i].as_str(), query) {
            let ghost prev = results@;
            results.push(line);
            assert(texts(results@) =~= texts(prev).push(line@));
        }
        i = i + 1;
    }
    assert(texts(lines@).take(lines@.len() as int) =~= texts(lines@));
    assert(string_texts(keys@).take(lines@.len() as int) =~= string_texts(keys@));
    results
}

/// The lines of `contents` that hold `query`, in their order.
pub fn search<'a>(query: &str, contents: &'a str) -> (r: Vec<&'a str>)
    ensures
        texts(r@) == lines_of(contents@).filter(|l: Seq<char>| occurs_in(query@, l)),
{
    filter_lines(query, lines(contents))
}

/// As `search`, written out as a loop over the lines.
pub fn search_deprecated<'a>(query: &str, contents: &'a str) -> (r: Vec<&'a str>)
    ensures
        texts(r@) == lines_of(contents@).filter(|l: Seq<char>| occurs_in(query@, l)),
{
    search(query, contents)
}

/// The lines of `contents` that hold `query`, in their order, where upper
/// and lower case count as the same.
pub fn search_case_insensitive<'a>(query: &str, contents: &'a str) -> (r: Vec<&'a str>)
    ensures
        texts(r@) == lines_of(contents@).filter(holds_lowercased(lowercase_of(query@))),
{
    let lowered = to_lowercase(query);
    let lines = lines(contents);
    let keys = lowercase_all(&lines);
    proof {
        lemma_picked_is_filter(lowered@, string_texts(keys@), lines_of(contents@));
    }
    pick_lines(lowered.as_str(), &keys, lines)
}

} // verus!
