use vstd::prelude::*;

use crate::assoc::strings_of;
use crate::config::{Config, TargetModel, TargetType};

verus! {

/// Why an editor invocation could not be built.
#[derive(Debug, PartialEq, Eq, Structural)]
pub enum EditorError {
    /// Neither the configuration nor the caller names an editor command.
    NoCommand,
    /// The target is a set without paths, and one path is needed.
    EmptySet,
}

/// `s` with every occurrence of `token`, leftmost first and not
/// overlapping, replaced by `rep`.
pub open spec fn replaced(s: Seq<char>, token: Seq<char>, rep: Seq<char>) -> Seq<char>
    decreases s.len(),
{
    if token.len() == 0 || s.len() < token.len() {
        s
    } else if s.take(token.len() as int) == token {
        rep + replaced(s.skip(token.len() as int), token, rep)
    } else {
        seq![s[0]] + replaced(s.skip(1), token, rep)
    }
}

/// The placeholder that argument templates use for the target path.
pub open spec fn placeholder() -> Seq<char> {
    "{{target}}"@
}

/// The single path that a target stands for where one is needed: the
/// primary path of a set.
pub open spec fn primary_path(t: TargetModel) -> Option<Seq<char>> {
    match t {
        TargetModel::Alias(p) => Some(p),
        TargetModel::Dir(p) => Some(p),
        TargetModel::Path(p) => Some(p),
        TargetModel::Group(ps) => if ps.len() > 0 {
            Some(ps[0])
        } else {
            None
        },
    }
}

/// Relies on regex::escape, regex::Regex::new and Regex::replace_all with
/// regex::NoExpand: a pattern built from an escaped literal matches exactly
/// that literal, and every match, leftmost first and not overlapping, is
/// replaced by `rep` taken as plain text.
#[verifier::external_body]
fn replace_literal(s: &str, token: &str, rep: &str) -> (r: String)
    requires
        0 < token@.len() <= 64,
    ensures
        r@ == replaced(s@, token@, rep@),
{
    let re = regex::Regex::new(&regex::escape(token)).unwrap();
    re.replace_all(s, regex::NoExpand(rep)).into_owned()
}

/// Each template with the placeholder replaced by `path`.
pub fn fill_templates(templates: &Vec<String>, path: &String) -> (r: Vec<String>)
    ensures
        r@.len() == templates@.len(),
        forall|i: int| 0 <= i < r@.len() ==> #[trigger] r@[i]@ == replaced(templates@[i]@, placeholder(), path@),
{
    let token = "{{target}}";
    proof {
        reveal_strlit("{{target}}");
        assert(token@.len() == 10);
    }
    let mut r: Vec<String> = Vec::new();
    let mut i: usize = 0;
    while i < templates.len()
        invariant
            i <= templates.len(),
            token@ == placeholder(),
            token@.len() == 10,
            r@.len() == i,
            forall|j: int| 0 <= j < i ==> #[trigger] r@[j]@ == replaced(templates@[j]@, placeholder(), path@),
        decreases templates.len() - i,
    {
        r.push(replace_literal(templates[i].as_str(), token, path.as_str()));
        i = i + 1;
    }
    r
}

impl Config {
    /// The editor command: the configured one, else `fallback`.
    pub fn get_editor(&self, fallback: Option<String>) -> (r: Result<String, EditorError>)
        ensures
            self.editor.command is Some ==> r is Ok && r.unwrap()@ == self.editor.command.unwrap()@,
            self.editor.command is None && fallback is Some ==> r is Ok && r.unwrap()@ == fallback.unwrap()@,
            self.editor.command is None && fallback is None ==> r == Err::<String, EditorError>(EditorError::NoCommand),
    {
        match &self.editor.command {
            Some(c) => Ok(c.clone()),
            None => match fallback {
                Some(f) => Ok(f),
                None => Err(EditorError::NoCommand),
            },
        }
    }

    /// The editor's arguments for `target`: each configured template with
    /// the placeholder replaced by the target's single path.
    pub fn get_editor_args(&self, target: &TargetType) -> (r: Result<Vec<String>, EditorError>)
        ensures
            primary_path(target@) is None ==> r == Err::<Vec<String>, EditorError>(EditorError::EmptySet),
            primary_path(target@) is Some ==> r is Ok,
            r is Ok ==> ({
                let out = r.unwrap()@;
                let templates = match self.editor.args {
                    Some(a) => a@,
                    None => Seq::empty(),
                };
                &&& out.len() == templates.len()
                &&& forall|i: int| 0 <= i < out.len() ==>
                    #[trigger] out[i]@ == replaced(templates[i]@, placeholder(), primary_path(target@).unwrap())
            }),
    {
        let path: &String = match target {
            TargetType::Alias(p) => p,
            TargetType::Path(p) => p,
            TargetType::Dir(p) => p,
            TargetType::Group(ps) => {
                if ps.len() == 0 {
                    return Err(EditorError::EmptySet);
                }
                proof {
                    assert(strings_of(ps@)[0] == ps@[0]@);
                }
                &ps[0]
            },
        };
        match &self.editor.args {
            Some(a) => Ok(fill_templates(a, path)),
            None => Ok(Vec::new()),
        }
    }
}

} // verus!
