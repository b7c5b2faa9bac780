//! Types that introduce themselves by name.

use vstd::prelude::*;
use vstd::string::StringExecFns;

verus! {

/// A type that can say hello with its own name.
pub trait HelloMacro {
    /// The name of the type.
    spec fn name_of_type() -> Seq<char>;

    /// The greeting of the type.
    fn hello_macro() -> (r: String)
        ensures
            r@ == hello_of(Self::name_of_type()),
    ;
}

/// The greeting of a type called `name`.
pub open spec fn hello_of(name: Seq<char>) -> Seq<char> {
    "Hello, Macro! My name is "@ + name + "!"@
}

/// The greeting of a type called `name`.
pub fn hello(name: &str) -> (r: String)
    ensures
        r@ == hello_of(name@),
{
    String::from_str("Hello, Macro! My name is ").concat(name).concat("!")
}

pub struct Sunfei;

pub struct Sunface;

impl HelloMacro for Sunfei {
    open spec fn name_of_type() -> Seq<char> {
        "Sunfei"@
    }

    fn hello_macro() -> (r: String) {
        hello("Sunfei")
    }
}

impl HelloMacro for Sunface {
    open spec fn name_of_type() -> Seq<char> {
        "Sunface"@
    }

    fn hello_macro() -> (r: String) {
        hello("Sunface")
    }
}

/// The greetings of `Sunfei` and `Sunface`, in this order.
pub fn custom_macro_sample() -> (r: Vec<String>)
    ensures
        r@.len() == 2,
        r@[0]@ == hello_of("Sunfei"@),
        r@[1]@ == hello_of("Sunface"@),
{
    let mut lines: Vec<String> = Vec::new();
    lines.push(Sunfei::hello_macro());
    lines.push(Sunface::hello_macro());
    lines
}

/// The greetings of `Sunfei` and `Sunface` if `is_run` is set, else nothing.
pub fn custom_macro(is_run: bool) -> (r: Vec<String>)
    ensures
        is_run ==> r@.len() == 2 && r@[0]@ == hello_of("Sunfei"@) && r@[1]@ == hello_of(
            "Sunface"@,
        ),
        !is_run ==> r@.len() == 0,
{
    if is_run {
        custom_macro_sample()
    } else {
        Vec::new()
    }
}

} // verus!
