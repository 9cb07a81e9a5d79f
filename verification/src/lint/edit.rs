use vstd::prelude::*;
use std::ops::Range;

verus! {

/// Replace bytes `range` of the source with `replacement`.
#[derive(Debug)]
pub struct TextEdit {
    pub range: Range<usize>,
    pub replacement: String,
}

/// A set of edits that together fix one finding.
#[derive(Debug)]
pub struct Fix {
    pub rule_id: &'static str,
    pub edits: Vec<TextEdit>,
}

/// Mathematical view of a `TextEdit`.
pub ghost struct EditView {
    pub start: int,
    pub end: int,
    pub replacement: Seq<char>,
}

/// Mathematical view of a `Fix`.
pub ghost struct FixView {
    pub rule_id: Seq<char>,
    pub edits: Seq<EditView>,
}

impl View for TextEdit {
    type V = EditView;

    open spec fn view(&self) -> EditView {
        EditView {
            start: self.range.start as int,
            end: self.range.end as int,
            replacement: self.replacement@,
        }
    }
}

/// Views of a sequence of edits.
pub open spec fn edit_views(v: Seq<TextEdit>) -> Seq<EditView> {
    v.map_values(|e: TextEdit| e@)
}

impl View for Fix {
    type V = FixView;

    open spec fn view(&self) -> FixView {
        FixView { rule_id: self.rule_id@, edits: edit_views(self.edits@) }
    }
}

/// The fix made of one edit.
pub open spec fn single_fix(rule_id: Seq<char>, start: int, end: int, replacement: Seq<char>) -> FixView {
    FixView { rule_id, edits: seq![EditView { start, end, replacement }] }
}

impl TextEdit {
    /// An edit replacing bytes `start..end` by `replacement`.
    pub fn new(start: usize, end: usize, replacement: String) -> (e: Self)
        ensures
            e@ == (EditView { start: start as int, end: end as int, replacement: replacement@ }),
    {
        TextEdit { range: Range { start, end }, replacement }
    }

    /// A copy of this edit.
    pub fn duplicate(&self) -> (e: Self)
        ensures
            e@ == self@,
    {
        let mut r = String::new();
        crate::text::push_str(&mut r, self.replacement.as_str());
        TextEdit { range: Range { start: self.range.start, end: self.range.end }, replacement: r }
    }
}

impl Fix {
    /// A fix made of the single edit replacing `start..end` by `replacement`.
    pub fn single(rule_id: &'static str, start: usize, end: usize, replacement: String) -> (f: Self)
        ensures
            f@ == single_fix(rule_id@, start as int, end as int, replacement@),
    {
        let ghost rv = replacement@;
        let e = TextEdit::new(start, end, replacement);
        let mut edits: Vec<TextEdit> = Vec::new();
        edits.push(e);
        let f = Fix { rule_id, edits };
        assert(f@.edits =~= single_fix(rule_id@, start as int, end as int, rv).edits);
        f
    }
}

} // verus!
