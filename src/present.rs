//! The text shown for a record.
use vstd::prelude::*;
use crate::record::{RecordModel, WordInfo};
use crate::text::append;

verus! {

/// One shown line per definition, each after the marker.
pub open spec fn definition_lines(ds: Seq<Seq<char>>) -> Seq<char>
    decreases ds.len(),
{
    if ds.len() == 0 {
        Seq::empty()
    } else {
        definition_lines(ds.drop_last()) + "Definition -> "@ + ds.last() + "\n"@
    }
}

/// The shown text of a record: its phonetic and part-of-speech lines, a blank
/// line, the header, a blank line, then its definitions.
pub open spec fn rendered(r: RecordModel) -> Seq<char> {
    "Phonetic: "@ + r.phonetic + "\n"@ + "Part of speech: "@ + r.part_of_speech + "\n"@ + "\n"@
        + "Definitions\n"@ + "\n"@ + definition_lines(r.definitions)
}

/// The text shown for a record.
pub fn render(w: &WordInfo) -> (r: String)
    ensures
        r@ == rendered(w@),
{
    let mut out = String::new();
    append(&mut out, "Phonetic: ");
    append(&mut out, w.phonetic.as_str());
    append(&mut out, "\n");
    append(&mut out, "Part of speech: ");
    append(&mut out, w.part_of_speech.as_str());
    append(&mut out, "\n");
    append(&mut out, "\n");
    append(&mut out, "Definitions\n");
    append(&mut out, "\n");
    let ghost head = out@;
    let mut i: usize = 0;
    while i < w.definitions.len()
        invariant
            i <= w.definitions@.len(),
            out@ == head + definition_lines(w@.definitions.take(i as int)),
        decreases w.definitions@.len() - i,
    {
        append(&mut out, "Definition -> ");
        append(&mut out, w.definitions[i].as_str());
        append(&mut out, "\n");
        i = i + 1;
        assert(w@.definitions.take(i as int).drop_last() == w@.definitions.take(i - 1));
    }
    assert(w@.definitions.take(i as int) == w@.definitions);
    assert(head == "Phonetic: "@ + w@.phonetic + "\n"@ + "Part of speech: "@ + w@.part_of_speech
        + "\n"@ + "\n"@ + "Definitions\n"@ + "\n"@);
    out
}

} // verus!
