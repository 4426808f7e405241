//! Typed subprocess descriptions.
use vstd::prelude::*;

use crate::text::{owned, push_str};

verus! {

/// The texts of a list of strings.
pub open spec fn texts(v: Seq<String>) -> Seq<Seq<char>> {
    v.map_values(|s: String| s@)
}

/// The texts of a list of string slices.
pub open spec fn str_texts(v: Seq<&str>) -> Seq<Seq<char>> {
    v.map_values(|s: &str| s@)
}

/// A program and its arguments.
#[derive(Clone, Debug, PartialEq, Eq)]
pub struct CommandSpec {
    pub program: String,
    pub args: Vec<String>,
}

impl View for CommandSpec {
    type V = (Seq<char>, Seq<Seq<char>>);

    open spec fn view(&self) -> (Seq<char>, Seq<Seq<char>>) {
        (self.program@, texts(self.args@))
    }
}

/// Owned copies of `list`.
pub fn strings(list: &[&str]) -> (r: Vec<String>)
    ensures
        texts(r@) == str_texts(list@),
{
    let mut r: Vec<String> = Vec::new();
    let mut k: usize = 0;
    while k < list.len()
        invariant
            k <= list.len(),
            r@.len() == k,
            forall|i: int| 0 <= i < k ==> #[trigger] r@[i]@ == list@[i]@,
        decreases list.len() - k,
    {
        r.push(owned(list[k]));
        k = k + 1;
    }
    assert(texts(r@) =~= str_texts(list@));
    r
}

/// Appends owned copies of `more` to `args`.
pub fn extend(args: &mut Vec<String>, more: &[&str])
    ensures
        texts(final(args)@) == texts(old(args)@) + str_texts(more@),
{
    let ghost start = args@;
    let mut k: usize = 0;
    while k < more.len()
        invariant
            k <= more.len(),
            start == old(args)@,
            args@.len() == start.len() + k,
            forall|i: int| 0 <= i < start.len() ==> #[trigger] args@[i] == start[i],
            forall|i: int| 0 <= i < k ==> #[trigger] args@[start.len() + i]@ == more@[i]@,
        decreases more.len() - k,
    {
        args.push(owned(more[k]));
        k = k + 1;
    }
    assert(texts(args@) =~= texts(start) + str_texts(more@)) by {
        assert forall|i: int| 0 <= i < args@.len() implies #[trigger] texts(args@)[i] == (texts(start)
            + str_texts(more@))[i] by {
            if i >= start.len() {
                assert(args@[start.len() + (i - start.len())]@ == more@[i - start.len()]@);
            }
        }
    }
}

/// Appends `more` to `args`.
pub fn extend_owned(args: &mut Vec<String>, more: Vec<String>)
    ensures
        texts(final(args)@) == texts(old(args)@) + texts(more@),
{
    let ghost start = args@;
    let mut k: usize = 0;
    let n = more.len();
    while k < n
        invariant
            k <= n == more.len(),
            start == old(args)@,
            args@.len() == start.len() + k,
            forall|i: int| 0 <= i < start.len() ==> #[trigger] args@[i] == start[i],
            forall|i: int| 0 <= i < k ==> #[trigger] args@[start.len() + i]@ == more@[i]@,
        decreases n - k,
    {
        args.push(more[k].clone());
        k = k + 1;
    }
    assert(texts(args@) =~= texts(start) + texts(more@)) by {
        assert forall|i: int| 0 <= i < args@.len() implies #[trigger] texts(args@)[i] == (texts(start)
            + texts(more@))[i] by {
            if i >= start.len() {
                assert(args@[start.len() + (i - start.len())]@ == more@[i - start.len()]@);
            }
        }
    }
}

impl CommandSpec {
    /// A command without arguments.
    pub fn new(program: &str) -> (r: Self)
        ensures
            r@ == (program@, Seq::<Seq<char>>::empty()),
    {
        let r = CommandSpec { program: owned(program), args: Vec::new() };
        assert(texts(r.args@) =~= Seq::<Seq<char>>::empty());
        r
    }

    /// This command with one more argument.
    pub fn arg(self, arg: &str) -> (r: Self)
        ensures
            r@ == (self@.0, self@.1.push(arg@)),
    {
        let mut r = self;
        r.args.push(owned(arg));
        assert(texts(r.args@) =~= self@.1.push(arg@));
        r
    }

    /// This command with more arguments.
    pub fn args(self, args: &[&str]) -> (r: Self)
        ensures
            r@ == (self@.0, self@.1 + str_texts(args@)),
    {
        let mut r = self;
        extend(&mut r.args, args);
        r
    }
}

/// `a`, then each of `rest` preceded by a space.
pub open spec fn spaced(a: Seq<char>, rest: Seq<Seq<char>>) -> Seq<char>
    decreases rest.len(),
{
    if rest.len() == 0 {
        a
    } else {
        spaced(a, rest.drop_last()) + " "@ + rest.last()
    }
}

/// The command line as shown in logs: program and arguments separated by spaces.
pub fn display(spec: &CommandSpec) -> (r: String)
    ensures
        r@ == spaced(spec@.0, spec@.1),
{
    let mut r = spec.program.clone();
    let mut k: usize = 0;
    while k < spec.args.len()
        invariant
            k <= spec.args.len(),
            r@ == spaced(spec@.0, spec@.1.take(k as int)),
        decreases spec.args.len() - k,
    {
        push_str(&mut r, " ");
        push_str(&mut r, spec.args[k].as_str());
        assert(spec@.1.take(k + 1).drop_last() == spec@.1.take(k as int));
        k = k + 1;
    }
    assert(spec@.1.take(spec.args.len() as int) == spec@.1);
    r
}

} // verus!
