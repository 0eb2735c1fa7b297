//! Rules that colour the rows of the message list whose subject, sender or
//! preview holds a given text. `color_rules.toml` is the source of truth; the
//! caller reads and writes the file, this module edits its contents.

use vstd::prelude::*;

verus! {

#[derive(Debug, Clone, PartialEq, Eq)]
pub struct ColorRule {
    /// Matched as a case-insensitive substring of the subject, the sender
    /// (name and address) or the preview.
    pub pattern: String,
    /// A CSS colour such as `#b00020`; not checked here.
    pub color: String,
}

/// The rules in the order they are tried: the first match wins.
#[derive(Debug, Clone, PartialEq, Eq)]
pub struct ColorRulesFile {
    pub rules: Vec<ColorRule>,
}

#[derive(Debug, Clone, PartialEq, Eq)]
pub enum ColorRulesError {
    Io(String),
    Parse { path: String, message: String },
    Serialize(String),
    IndexOutOfRange(usize),
}

impl ColorRulesFile {
    /// A file with no rules, what a missing file stands for.
    pub fn empty() -> (file: ColorRulesFile)
        ensures
            file.rules@.len() == 0,
    {
        ColorRulesFile { rules: Vec::new() }
    }
}

/// Appends one rule after the existing ones, which keep their order.
pub fn add(file: ColorRulesFile, rule: ColorRule) -> (updated: ColorRulesFile)
    ensures
        updated.rules@ == file.rules@.push(rule),
{
    let mut file = file;
    file.rules.push(rule);
    file
}

/// Removes the rule at `index` (rules have no id: the position the GUI shows
/// is used). An index past the end is an error and changes nothing.
pub fn remove(file: ColorRulesFile, index: usize) -> (result: Result<ColorRulesFile, ColorRulesError>)
    ensures
        index >= file.rules@.len() ==> result == Err::<ColorRulesFile, ColorRulesError>(
            ColorRulesError::IndexOutOfRange(index),
        ),
        index < file.rules@.len() ==> (result matches Ok(updated) && updated.rules@
            == file.rules@.remove(index as int)),
{
    if index >= file.rules.len() {
        return Err(ColorRulesError::IndexOutOfRange(index));
    }
    let mut file = file;
    file.rules.remove(index);
    Ok(file)
}

/// Adding a rule and then removing the last rule gives back the rules as they
/// were.
pub proof fn lemma_add_then_remove_last(file: ColorRulesFile, rule: ColorRule)
    ensures
        file.rules@.push(rule).remove(file.rules@.len() as int) == file.rules@,
{
    assert(file.rules@.push(rule).remove(file.rules@.len() as int) =~= file.rules@);
}

/// Removing a rule keeps every other rule, in order: those before `index` stay
/// where they were, those after move up by one.
pub proof fn lemma_remove_keeps_the_others(rules: Seq<ColorRule>, index: int)
    requires
        0 <= index < rules.len(),
    ensures
        rules.remove(index).len() == rules.len() - 1,
        forall|i: int| 0 <= i < index ==> rules.remove(index)[i] == rules[i],
        forall|i: int| index <= i < rules.len() - 1 ==> rules.remove(index)[i] == rules[i + 1],
{
}

} // verus!
