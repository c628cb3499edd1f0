//! The dependencies report: what a configuration's `dependencies` table
//! holds, as rendered `key: value` lines.

use vstd::prelude::*;

use crate::parse::toml_document;
use crate::render::render_model;
use crate::render::render_value;
use crate::value::ConfigValue;
use crate::value::ValueModel;
use crate::value::entry_models_of;
use crate::value::lemma_entry_models_of;
use crate::value::value_model;
use crate::value::lookup;

verus! {

/// The model of a dependencies report.
#[verifier::ext_equal]
pub enum ReportModel {
    /// The `dependencies` table's entries as lines, in the table's order.
    Present(Seq<Seq<char>>),
    /// A `dependencies` key is there, but bound to something other than a
    /// table.
    InvalidType,
    /// No `dependencies` key.
    Missing,
}

/// A dependencies report.  Listing dependencies is advisory: a missing or
/// malformed section degrades to a diagnostic variant, never to an error.
#[derive(Debug, PartialEq, Eq)]
pub enum DepsReport {
    /// One `key: value` line per entry of the `dependencies` table, in the
    /// table's order.
    Present(Vec<String>),
    /// The `dependencies` key is bound to something other than a table.
    InvalidType,
    /// There is no `dependencies` key.
    Missing,
}

impl View for DepsReport {
    type V = ReportModel;

    open spec fn view(&self) -> ReportModel {
        match self {
            DepsReport::Present(lines) => ReportModel::Present(lines.deep_view()),
            DepsReport::InvalidType => ReportModel::InvalidType,
            DepsReport::Missing => ReportModel::Missing,
        }
    }
}

/// The line one table entry contributes: the key, `: `, and the value's
/// rendering.
pub open spec fn dep_line(key: Seq<char>, m: ValueModel) -> Seq<char> {
    key + ": "@ + render_model(m)
}

/// The lines of a dependencies table, in its order.
pub open spec fn dep_lines(des: Seq<(Seq<char>, ValueModel)>) -> Seq<Seq<char>> {
    des.map(|i: int, kv: (Seq<char>, ValueModel)| dep_line(kv.0, kv.1))
}

/// The report a configuration gets: its `dependencies` table's lines when
/// the key is bound to a table, the matching diagnostic otherwise.
pub open spec fn report_model(m: ValueModel) -> ReportModel {
    match lookup(m, "dependencies"@) {
        Some(d) => match d {
            ValueModel::Table(des) => ReportModel::Present(dep_lines(des)),
            _ => ReportModel::InvalidType,
        },
        None => ReportModel::Missing,
    }
}

/// Reports the `dependencies` table of a configuration, as `report_model`
/// states it.
pub fn dependencies_report(config: &ConfigValue) -> (r: DepsReport)
    ensures
        r@ == report_model(config@),
{
    match config.get("dependencies") {
        Some(dep) => match dep {
            ConfigValue::Table(entries) => {
                proof {
                    lemma_entry_models_of(entries@);
                }
                let ghost des = entry_models_of(entries@);
                let mut lines: Vec<String> = Vec::new();
                let n = entries.len();
                let mut i: usize = 0;
                while i < n
                    invariant
                        n == entries.len(),
                        i <= n,
                        des == entry_models_of(entries@),
                        des.len() == n,
                        forall|j: int| 0 <= j < n ==> #[trigger] des[j] == (
                        entries@[j].0@,
                        value_model(entries@[j].1),
                        ),
                        lines@.len() == i,
                        forall|j: int| 0 <= j < i ==> #[trigger] lines@[j]@ == dep_line(
                        des[j].0,
                        des[j].1,
                        ),
                    decreases n - i,
                {
                    let mut line = entries[i].0.clone();
                    line.append(": ");
                    let piece = render_value(&entries[i].1);
                    line.append(piece.as_str());
                    lines.push(line);
                    i += 1;
                }
                proof {
                    assert(lines.deep_view() =~~= dep_lines(des));
                }
                DepsReport::Present(lines)
            },
            _ => DepsReport::InvalidType,
        },
        None => DepsReport::Missing,
    }
}

/// One line per key: a well-formed document whose `dependencies` key binds
/// a table reports exactly its entries, in the table's order, each line
/// the key followed by `: ` and the value's rendering, and no diagnostic.
pub proof fn lemma_report_lists_dependencies(
    text: Seq<char>,
    m: ValueModel,
    des: Seq<(Seq<char>, ValueModel)>,
)
    requires
        toml_document(text) == Some(m),
        lookup(m, "dependencies"@) == Some(ValueModel::Table(des)),
    ensures
        report_model(m) == ReportModel::Present(dep_lines(des)),
        dep_lines(des).len() == des.len(),
        forall|i: int|
            0 <= i < des.len() ==> #[trigger] dep_lines(des)[i] == dep_line(des[i].0, des[i].1),
{
}

/// A well-formed document with no `dependencies` key reports exactly the
/// missing diagnostic: no lines, no other diagnostic.
pub proof fn lemma_report_missing(text: Seq<char>, m: ValueModel)
    requires
        toml_document(text) == Some(m),
        lookup(m, "dependencies"@) is None,
    ensures
        report_model(m) == ReportModel::Missing,
{
}

/// A well-formed document whose `dependencies` key binds a non-table value
/// reports exactly the invalid-table diagnostic: no lines.
pub proof fn lemma_report_invalid(text: Seq<char>, m: ValueModel, d: ValueModel)
    requires
        toml_document(text) == Some(m),
        lookup(m, "dependencies"@) == Some(d),
        !(d is Table),
    ensures
        report_model(m) == ReportModel::InvalidType,
{
}

} // verus!
