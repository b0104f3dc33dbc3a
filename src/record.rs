use vstd::prelude::*;

verus! {

/// Most definitions a record keeps.
pub const MAX_DEFINITIONS: usize = 3;

/// What a record holds, as mathematical values.
pub struct RecordModel {
    pub phonetic: Seq<char>,
    pub part_of_speech: Seq<char>,
    pub definitions: Seq<Seq<char>>,
}

/// The phonetic transcription, part of speech and first definitions of a word.
#[derive(Debug)]
pub struct WordInfo {
    pub phonetic: String,
    pub part_of_speech: String,
    pub definitions: Vec<String>,
}

/// The views of a list of strings.
pub open spec fn strings_view(v: Seq<String>) -> Seq<Seq<char>> {
    v.map_values(|s: String| s@)
}

impl View for WordInfo {
    type V = RecordModel;

    open spec fn view(&self) -> RecordModel {
        RecordModel {
            phonetic: self.phonetic@,
            part_of_speech: self.part_of_speech@,
            definitions: strings_view(self.definitions@),
        }
    }
}

impl RecordModel {
    /// A record never holds more than the cap of definitions.
    pub open spec fn wf(self) -> bool {
        self.definitions.len() <= MAX_DEFINITIONS
    }
}

/// A copy of a list of strings.
pub fn copy_strings(v: &Vec<String>) -> (r: Vec<String>)
    ensures
        r@.len() == v@.len(),
        strings_view(r@) == strings_view(v@),
{
    let mut r: Vec<String> = Vec::new();
    let mut i: usize = 0;
    while i < v.len()
        invariant
            i <= v@.len(),
            r@.len() == i,
            forall|j: int| 0 <= j < i ==> r@[j]@ == v@[j]@,
        decreases v@.len() - i,
    {
        r.push(v[i].clone());
        i = i + 1;
    }
    assert(strings_view(r@) =~= strings_view(v@));
    r
}

impl WordInfo {
    /// A record of the given fields.
    pub fn new(phonetic: String, part_of_speech: String, definitions: Vec<String>) -> (r: WordInfo)
        requires
            definitions@.len() <= MAX_DEFINITIONS,
        ensures
            r@.wf(),
            r.phonetic@ == phonetic@,
            r.part_of_speech@ == part_of_speech@,
            r.definitions@ == definitions@,
    {
        WordInfo { phonetic, part_of_speech, definitions }
    }

    /// A copy with the same contents.
    pub fn copy(&self) -> (r: WordInfo)
        ensures
            r@ == self@,
    {
        WordInfo {
            phonetic: self.phonetic.clone(),
            part_of_speech: self.part_of_speech.clone(),
            definitions: copy_strings(&self.definitions),
        }
    }

    /// Whether two records hold the same contents.
    pub fn same_as(&self, other: &WordInfo) -> (r: bool)
        ensures
            r == (self@ == other@),
    {
        if self.phonetic != other.phonetic || self.part_of_speech != other.part_of_speech
            || self.definitions.len() != other.definitions.len() {
            assert(self@.definitions.len() == self.definitions@.len());
            assert(other@.definitions.len() == other.definitions@.len());
            return false;
        }
        let mut i: usize = 0;
        while i < self.definitions.len()
            invariant
                i <= self.definitions@.len(),
                self.definitions@.len() == other.definitions@.len(),
                self.phonetic@ == other.phonetic@,
                self.part_of_speech@ == other.part_of_speech@,
                forall|j: int| 0 <= j < i ==> self.definitions@[j]@ == other.definitions@[j]@,
            decreases self.definitions@.len() - i,
        {
            if self.definitions[i] != other.definitions[i] {
                assert(strings_view(self.definitions@)[i as int]
                    != strings_view(other.definitions@)[i as int]);
                return false;
            }
            i = i + 1;
        }
        assert(strings_view(self.definitions@) =~= strings_view(other.definitions@));
        true
    }
}

} // verus!
