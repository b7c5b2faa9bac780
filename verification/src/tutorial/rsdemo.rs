//! Samples on vectors, strings and small types.

use vstd::prelude::*;
use vstd::string::{StrSliceExecFns, StringExecFns};

verus! {

/// Whether `num` is even.
pub open spec fn even(num: i32) -> bool {
    num % 2 == 0
}

/// Whether `num` is even.
pub fn is_even(num: i32) -> (r: bool)
    ensures
        r == even(num),
{
    num % 2 == 0
}

/// Keeps the even numbers of `nums`, in their order, and drops the others.
pub fn retain_even_numbers(nums: &mut Vec<i32>)
    ensures
        final(nums)@ == old(nums)@.filter(|x: i32| even(x)),
{
    let ghost before = nums@;
    let ghost keep = |x: i32| even(x);
    let n: usize = nums.len();
    let mut i: usize = 0;
    let mut j: usize = 0;
    while j < n
        invariant
            i <= j <= n,
            n == before.len(),
            nums@.len() == n,
            keep == (|x: i32| even(x)),
            nums@.take(i as int) == before.take(j as int).filter(keep),
            forall|k: int| j <= k < n ==> nums@[k] == before[k],
        decreases n - j,
    {
        let x: i32 = nums[j];
        proof {
            reveal(Seq::filter);
            assert(before.take(j + 1).drop_last() =~= before.take(j as int));
            assert(before.take(j + 1).last() == x);
        }
        if is_even(x) {
            let ghost prev = nums@;
            nums.set(i, x);
            assert(nums@.take(i + 1) =~= prev.take(i as int).push(x));
            i = i + 1;
        }
        j = j + 1;
    }
    nums.truncate(i);
    assert(before.take(n as int) =~= before);
    assert(nums@ =~= before.filter(keep));
}

/// Where the last space of `s` stands, if there is one.
pub open spec fn last_space(s: Seq<char>) -> Option<int>
    decreases s.len(),
{
    if s.len() == 0 {
        None
    } else if s.last() == ' ' {
        Some(s.len() - 1)
    } else {
        last_space(s.drop_last())
    }
}

/// What of `s` stands before its last space: all of it, if it has none.
pub open spec fn before_last_space(s: Seq<char>) -> Seq<char> {
    match last_space(s) {
        Some(k) => s.take(k),
        None => s,
    }
}

/// The part of `s` before its last space, or all of `s` if it has none.
pub fn first_word(s: &str) -> (r: &str)
    ensures
        r@ == before_last_space(s@),
{
    let n: usize = s.unicode_len();
    let mut end: usize = n;
    let mut i: usize = 0;
    while i < n
        invariant
            i <= n,
            n == s@.len(),
            end <= n,
            match last_space(s@.take(i as int)) {
                Some(k) => end == k,
                None => end == n,
            },
        decreases n - i,
    {
        proof {
            assert(s@.take(i + 1).drop_last() =~= s@.take(i as int));
            assert(s@.take(i + 1).last() == s@[i as int]);
        }
        if s.get_char(i) == ' ' {
            end = i;
        }
        i = i + 1;
    }
    assert(s@.take(n as int) =~= s@);
    assert(s@.subrange(0, n as int) =~= s@);
    s.substring_char(0, end)
}

/// The sum of `a` and `b`.
pub fn add(a: i32, b: i32) -> (r: i32)
    requires
        i32::MIN <= a + b <= i32::MAX,
    ensures
        r == a + b,
{
    a + b
}

/// A greeting for `name`.
pub fn greeting(name: &str) -> (r: String)
    ensures
        r@ == "Hello "@ + name@ + "!"@,
{
    String::from_str("Hello ").concat(name).concat("!")
}

/// A guess between 1 and 100.
pub struct Guess {
    value: i32,
}

impl Guess {
    /// The number that was guessed.
    pub closed spec fn spec_value(&self) -> i32 {
        self.value
    }

    /// A guess of `value`, which lies between 1 and 100.
    pub fn new(value: i32) -> (r: Guess)
        requires
            1 <= value <= 100,
        ensures
            r.spec_value() == value,
    {
        Guess { value }
    }

    /// The number that was guessed.
    pub fn value(&self) -> (r: i32)
        ensures
            r == self.spec_value(),
    {
        self.value
    }
}

/// Whether a file is open.
#[derive(Clone, Copy, Debug, PartialEq, Eq, Structural)]
pub enum FileState {
    Open,
    Close,
}

impl FileState {
    /// The state in capital letters.
    pub open spec fn spec_label(self) -> Seq<char> {
        match self {
            FileState::Open => "OPEN"@,
            FileState::Close => "CLOSE"@,
        }
    }

    /// The state in capital letters.
    pub fn label(&self) -> (r: &'static str)
        ensures
            r@ == self.spec_label(),
    {
        match self {
            FileState::Open => "OPEN",
            FileState::Close => "CLOSE",
        }
    }
}

/// A named file with its content and state.
#[derive(Debug)]
pub struct File {
    pub name: String,
    pub data: Vec<u8>,
    pub state: FileState,
}

impl File {
    /// A closed, empty file called `name`.
    pub fn new(name: &str) -> (r: File)
        ensures
            r.name@ == name@,
            r.data@ == Seq::<u8>::empty(),
            r.state == FileState::Close,
    {
        File { name: String::from_str(name), data: Vec::new(), state: FileState::Close }
    }

    /// Opens the file.
    pub fn open(&mut self)
        ensures
            final(self).state == FileState::Open,
            final(self).name == old(self).name,
            final(self).data == old(self).data,
    {
        self.state = FileState::Open;
    }

    /// The file as text: its name, then its state in brackets.
    pub fn describe(&self) -> (r: String)
        ensures
            r@ == "<"@ + self.name@ + " ("@ + self.state.spec_label() + ")>"@,
    {
        String::from_str("<").concat(self.name.as_str()).concat(" (").concat(
            self.state.label(),
        ).concat(")>")
    }
}

} // verus!
