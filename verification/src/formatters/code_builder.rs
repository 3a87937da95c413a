use crate::common::utf8::string_push;
use vstd::prelude::*;
use vstd::std_specs::iter::IteratorSpec;

verus! {

broadcast use vstd::string::group_string_axioms;

/// `n` tab characters.
pub open spec fn tabs(n: nat) -> Seq<char> {
    Seq::new(n, |i: int| '\t')
}

/// `text` with every newline replaced by `indent`.
pub open spec fn replace_newlines(text: Seq<char>, indent: Seq<char>) -> Seq<char>
    decreases text.len(),
{
    if text.len() == 0 {
        Seq::empty()
    } else {
        let head = if text[0] == '\n' { indent } else { seq![text[0]] };
        head + replace_newlines(text.drop_first(), indent)
    }
}

/// Builds source text line by line, with tab indentation that nested
/// branches deepen.
pub struct CodeBuilder {
    code: String,
    indent: u32,
    indent_string: String,
}

impl CodeBuilder {
    /// The indentation string is always `indent` tabs.
    pub closed spec fn wf(&self) -> bool {
        self.indent_string@ == tabs(self.indent as nat)
    }

    /// The text built so far.
    pub closed spec fn text(&self) -> Seq<char> {
        self.code@
    }

    /// The current nesting depth.
    pub closed spec fn depth(&self) -> nat {
        self.indent as nat
    }

    /// The text built so far.
    pub fn collect(self) -> (r: String)
        ensures
            r@ == self.text(),
    {
        self.code
    }

    /// Appends `text` as it is, except that each newline in it is replaced by
    /// the current indentation.
    pub fn code(&mut self, text: &str) -> (r: &mut Self)
        requires
            old(self).wf(),
        ensures
            *final(self) == *final(r),
            r.wf(),
            r.depth() == old(self).depth(),
            r.text() == old(self).text() + replace_newlines(
                text@,
                tabs(old(self).depth()),
            ),
    {
        let mut chars = text.chars();
        let ghost start = self.code@;
        loop
            invariant
                self.wf(),
                self.indent == old(self).indent,
                start == old(self).code@,
                self.code@ + replace_newlines(chars.remaining(), self.indent_string@) == start
                    + replace_newlines(text@, self.indent_string@),
                chars.obeys_prophetic_iter_laws(),
                chars.decrease() is Some,
            ensures
                self.wf(),
                self.indent == old(self).indent,
                self.code@ == old(self).code@ + replace_newlines(text@, self.indent_string@),
            decreases chars.decrease()->0,
        {
            let ghost before = chars.remaining();
            match chars.next() {
                Some(c) => {
                    assert(before.drop_first() == chars.remaining());
                    if c == '\n' {
                        self.code.append(self.indent_string.as_str());
                    } else {
                        string_push(&mut self.code, c);
                    }
                    assert(self.code@ + replace_newlines(chars.remaining(), self.indent_string@)
                        =~= start + replace_newlines(text@, self.indent_string@));
                },
                None => {
                    assert(before.len() == 0);
                    assert(self.code@ =~= start + replace_newlines(text@, self.indent_string@));
                    break ;
                },
            }
        }
        self
    }

    /// Appends one line: the current indentation, `text` and a newline.
    pub fn line(&mut self, text: &str) -> (r: &mut Self)
        requires
            old(self).wf(),
        ensures
            *final(self) == *final(r),
            r.wf(),
            r.depth() == old(self).depth(),
            r.text() == old(self).text() + tabs(old(self).depth()) + text@ + seq!['\n'],
    {
        self.code.append(self.indent_string.as_str());
        self.code.append(text);
        string_push(&mut self.code, '\n');
        self
    }

    /// Runs `cb` one level deeper, then returns to the current depth. The
    /// text is what `cb` left in the deeper builder.
    pub fn branch<F: Fn(&mut Self)>(&mut self, cb: F) -> (r: &mut Self)
        requires
            old(self).wf(),
            old(self).depth() < u32::MAX,
            forall|b: &mut CodeBuilder|
                mut_ref_current(b).wf() && mut_ref_current(b).depth() == old(self).depth() + 1
                    ==> #[trigger] call_requires(cb, (b,)),
            forall|b: &mut CodeBuilder|
                #[trigger] call_ensures(cb, (b,), ()) && mut_ref_current(b).wf()
                    ==> mut_ref_future(b).wf() && mut_ref_future(b).depth() == mut_ref_current(
                    b,
                ).depth(),
        ensures
            *final(self) == *final(r),
            r.wf(),
            r.depth() == old(self).depth(),
            exists|b: &mut CodeBuilder|
                {
                    &&& #[trigger] call_ensures(cb, (b,), ())
                    &&& mut_ref_current(b).text() == old(self).text()
                    &&& mut_ref_current(b).depth() == old(self).depth() + 1
                    &&& mut_ref_future(b).text() == r.text()
                },
    {
        self.push_indent();
        cb(self);
        self.pop_indent();
        self
    }

    /// Goes one level deeper.
    pub(crate) fn indent_in(&mut self)
        requires
            old(self).wf(),
            old(self).depth() < u32::MAX,
        ensures
            final(self).wf(),
            final(self).depth() == old(self).depth() + 1,
            final(self).text() == old(self).text(),
    {
        self.push_indent();
    }

    /// Goes one level back.
    pub(crate) fn indent_out(&mut self)
        requires
            old(self).wf(),
            old(self).depth() > 0,
        ensures
            final(self).wf(),
            final(self).depth() == old(self).depth() - 1,
            final(self).text() == old(self).text(),
    {
        self.pop_indent();
    }

    fn push_indent(&mut self)
        requires
            old(self).wf(),
            old(self).indent < u32::MAX,
        ensures
            final(self).wf(),
            final(self).indent == old(self).indent + 1,
            final(self).code == old(self).code,
    {
        self.indent = self.indent + 1;
        self.indent_string = repeat_tab(self.indent);
    }

    fn pop_indent(&mut self)
        requires
            old(self).wf(),
            old(self).indent > 0,
        ensures
            final(self).wf(),
            final(self).indent == old(self).indent - 1,
            final(self).code == old(self).code,
    {
        self.indent = self.indent - 1;
        self.indent_string = repeat_tab(self.indent);
    }
}

impl Default for CodeBuilder {
    /// An empty builder at depth zero.
    fn default() -> (r: Self)
        ensures
            r.wf(),
            r.text() == Seq::<char>::empty(),
            r.depth() == 0,
    {
        let r = CodeBuilder { code: String::new(), indent: 0, indent_string: String::new() };
        assert(r.indent_string@ =~= tabs(0));
        r
    }
}

/// `count` tabs.
fn repeat_tab(count: u32) -> (r: String)
    ensures
        r@ == tabs(count as nat),
{
    let mut r = String::new();
    let mut i: u32 = 0;
    while i < count
        invariant
            i <= count,
            r@ == tabs(i as nat),
        decreases count - i,
    {
        string_push(&mut r, '\t');
        i = i + 1;
        assert(r@ =~= tabs(i as nat));
    }
    r
}

} // verus!
