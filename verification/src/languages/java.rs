//! Java methods and the classes, enums and interfaces around them.
use vstd::prelude::*;

use crate::text::{concat_all, lemma_concat_all_push, push_str};

verus! {

/// The kind of block a Java method is in.
#[derive(Debug, Clone, Copy, PartialEq, Eq, Structural)]
pub enum JavaBlockType {
    /// a class
    Class,
    /// an enum
    Enum,
    /// an interface
    Interface,
}

/// A class, enum or interface that a Java method is in.
#[derive(Debug)]
pub struct JavaBlock {
    /// the name of the block
    pub name: String,
    /// the first and last line of the block
    pub line: (usize, usize),
    /// the (line numbered) first line of the block
    pub top: String,
    /// the (line numbered) last line of the block
    pub bottom: String,
    /// the kind of block
    pub type_: JavaBlockType,
}

/// A single Java method that was found.
#[derive(Debug)]
pub struct JavaFunction {
    /// the name of the method
    pub name: String,
    /// the first and last line of the method
    pub lines: (usize, usize),
    /// the parameters of the method
    pub args: Vec<String>,
    /// the (line numbered) code of the method
    pub body: String,
    /// the blocks the method is in, outermost first
    pub class: Vec<JavaBlock>,
}

impl JavaFunction {
    /// creates a new `JavaFunction`
    pub fn new(
        name: String,
        lines: (usize, usize),
        args: Vec<String>,
        body: String,
        class: Vec<JavaBlock>,
    ) -> (r: Self)
        ensures
            r == (JavaFunction { name, lines, args, body, class }),
    {
        JavaFunction { name, lines, args, body, class }
    }
}

/// The separator between the parts of a shown method.
pub open spec fn java_sep() -> Seq<char> {
    seq!['\n', '.', '.', '.', '\n']
}

/// How a Java method is shown: the tops of its blocks, outermost first, each
/// followed by the separator; its body; then the bottoms of its blocks,
/// innermost first, each after the separator.
pub open spec fn java_display(f: JavaFunction) -> Seq<char> {
    let cs = f.class@;
    concat_all(Seq::new(cs.len(), |i: int| cs[i].top@ + java_sep())) + f.body@ + concat_all(
        Seq::new(cs.len(), |i: int| java_sep() + cs[cs.len() - 1 - i].bottom@),
    )
}

impl JavaFunction {
    /// The method shown with the blocks around it.
    pub fn to_string(&self) -> (r: String)
        ensures
            r@ == java_display(*self),
    {
        let ghost cs = self.class@;
        let mut s = String::new();
        let mut i: usize = 0;
        while i < self.class.len()
            invariant
                i <= self.class.len(),
                cs == self.class@,
                s@ == concat_all(Seq::new(i as nat, |j: int| cs[j].top@ + java_sep())),
            decreases self.class.len() - i,
        {
            proof {
                reveal_strlit("\n...\n");
                lemma_concat_all_push(
                    Seq::new(i as nat, |j: int| cs[j].top@ + java_sep()),
                    cs[i as int].top@ + java_sep(),
                );
                assert(Seq::new(i as nat, |j: int| cs[j].top@ + java_sep()).push(
                    cs[i as int].top@ + java_sep(),
                ) =~= Seq::new((i + 1) as nat, |j: int| cs[j].top@ + java_sep()));
            }
            push_str(&mut s, self.class[i].top.as_str());
            push_str(&mut s, "\n...\n");
            i += 1;
        }
        push_str(&mut s, self.body.as_str());
        let ghost mid = s@;
        let n = self.class.len();
        let mut k: usize = 0;
        while k < n
            invariant
                k <= n,
                n == cs.len(),
                cs == self.class@,
                s@ == mid + concat_all(
                    Seq::new(k as nat, |j: int| java_sep() + cs[cs.len() - 1 - j].bottom@),
                ),
            decreases n - k,
        {
            proof {
                reveal_strlit("\n...\n");
                lemma_concat_all_push(
                    Seq::new(k as nat, |j: int| java_sep() + cs[cs.len() - 1 - j].bottom@),
                    java_sep() + cs[cs.len() - 1 - k].bottom@,
                );
                assert(Seq::new(k as nat, |j: int| java_sep() + cs[cs.len() - 1 - j].bottom@).push(
                    java_sep() + cs[cs.len() - 1 - k].bottom@,
                ) =~= Seq::new(
                    (k + 1) as nat,
                    |j: int| java_sep() + cs[cs.len() - 1 - j].bottom@,
                ));
            }
            push_str(&mut s, "\n...\n");
            push_str(&mut s, self.class[n - 1 - k].bottom.as_str());
            k += 1;
        }
        s
    }
}

} // verus!
