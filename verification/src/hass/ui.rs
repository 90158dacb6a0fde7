//! The text of the label that the overlay draws beside a device.

use crate::hass::EntityRecord;
use vstd::prelude::*;

verus! {

/// `parts` one after the other, with `separator` between neighbours.
pub open spec fn joined(parts: Seq<Seq<char>>, separator: Seq<char>) -> Seq<char>
    decreases parts.len(),
{
    if parts.len() == 0 {
        Seq::empty()
    } else if parts.len() == 1 {
        parts[0]
    } else {
        joined(parts.drop_last(), separator) + separator + parts.last()
    }
}

/// The line of one entity: its identifier, a colon, a space, its state.
pub open spec fn name_line(record: (Seq<char>, Seq<char>)) -> Seq<char> {
    record.0 + ": "@ + record.1
}

/// The lines of the entities, in order.
pub open spec fn name_lines(records: Seq<EntityRecord>) -> Seq<Seq<char>> {
    Seq::new(records.len(), |i: int| name_line(records[i]@))
}

/// Joins strings with `itertools::Itertools::join`, which writes the first
/// item and then, before every further item, the separator; nothing for no
/// items.
#[verifier::external_body]
fn join(parts: &Vec<String>, separator: &str) -> (text: String)
    ensures
        text@ == joined(parts.deep_view(), separator@),
{
    itertools::Itertools::join(&mut parts.iter(), separator)
}

/// The label of a device: one line for each of its entities, in order, the
/// lines separated by a comma and a line break.
pub fn render_names(children: &Vec<EntityRecord>) -> (label: String)
    ensures
        label@ == joined(name_lines(children@), ",\n"@),
{
    let mut lines: Vec<String> = Vec::new();
    let mut i: usize = 0;
    while i < children.len()
        invariant
            i <= children.len(),
            lines.len() == i,
            forall|k: int| 0 <= k < i ==> (#[trigger] lines[k])@ == name_line(children[k]@),
        decreases children.len() - i,
    {
        let mut line = children[i].entity.entity_id.clone();
        line.append(": ");
        line.append(children[i].state.state.as_str());
        lines.push(line);
        i += 1;
    }
    assert(lines.deep_view() =~= name_lines(children@));
    join(&lines, ",\n")
}

} // verus!
