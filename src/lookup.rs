//! The decisions of one lookup: which word, whether the store already answers,
//! where to ask the service, and what the store holds afterwards.
use vstd::prelude::*;
use crate::dictionary::Dictionary;
use crate::entry::outcome_view;
use crate::error::{ErrorModel, LookupError};
use crate::record::{RecordModel, WordInfo};
use crate::text::{append, append_char};
use vstd::string::StringSliceAdditionalSpecFns;

verus! {

/// Where the dictionary service answers for a word, before the escaped word.
pub const SERVICE_PREFIX: &'static str = "https://api.dictionaryapi.dev/api/v2/entries/en/";

/// The word to look up, from the arguments that follow the program's name.
pub open spec fn word_of(args: Seq<String>) -> Result<Seq<char>, ErrorModel> {
    if args.len() == 0 {
        Err(ErrorModel::MissingWord)
    } else {
        Ok(args[0]@)
    }
}

/// The first argument is the word; without one there is nothing to look up.
pub fn word_argument(args: &Vec<String>) -> (r: Result<String, LookupError>)
    ensures
        match r {
            Ok(w) => word_of(args@) == Ok::<Seq<char>, ErrorModel>(w@),
            Err(e) => word_of(args@) == Err::<Seq<char>, ErrorModel>(e@),
        },
{
    if args.len() == 0 {
        Err(LookupError::MissingWord)
    } else {
        Ok(args[0].clone())
    }
}

/// Bytes that stand for themselves in a URL path.
pub open spec fn is_unreserved(b: u8) -> bool {
    (65 <= b <= 90) || (97 <= b <= 122) || (48 <= b <= 57) || b == 45 || b == 46 || b == 95
        || b == 126
}

/// The upper-case hexadecimal digits.
pub open spec fn hex_digits() -> Seq<char> {
    seq!['0', '1', '2', '3', '4', '5', '6', '7', '8', '9', 'A', 'B', 'C', 'D', 'E', 'F']
}

/// One byte as it stands in a URL path.
pub open spec fn escaped_byte(b: u8) -> Seq<char> {
    if is_unreserved(b) {
        seq![b as char]
    } else {
        seq!['%', hex_digits()[(b / 16) as int], hex_digits()[(b % 16) as int]]
    }
}

/// Bytes as they stand in a URL path: percent-escaped but for unreserved ones.
pub open spec fn escaped(bs: Seq<u8>) -> Seq<char>
    decreases bs.len(),
{
    if bs.len() == 0 {
        Seq::empty()
    } else {
        escaped(bs.drop_last()) + escaped_byte(bs.last())
    }
}

fn hex_digit(n: u8) -> (c: char)
    requires
        n < 16,
    ensures
        c == hex_digits()[n as int],
{
    let digits = ['0', '1', '2', '3', '4', '5', '6', '7', '8', '9', 'A', 'B', 'C', 'D', 'E', 'F'];
    assert(digits@ == hex_digits());
    digits[n as usize]
}

/// The address at which the service answers for `word`.
pub fn lookup_url(word: &str) -> (r: String)
    ensures
        r@ == SERVICE_PREFIX@ + escaped(word.spec_bytes()),
{
    let bytes = word.as_bytes();
    let mut out = String::new();
    append(&mut out, SERVICE_PREFIX);
    let ghost head = out@;
    let mut i: usize = 0;
    while i < bytes.len()
        invariant
            bytes@ == word.spec_bytes(),
            i <= bytes@.len(),
            head == SERVICE_PREFIX@,
            out@ == head + escaped(bytes@.take(i as int)),
        decreases bytes@.len() - i,
    {
        let b = bytes[i];
        if (65 <= b && b <= 90) || (97 <= b && b <= 122) || (48 <= b && b <= 57) || b == 45
            || b == 46 || b == 95 || b == 126 {
            append_char(&mut out, b as char);
        } else {
            append_char(&mut out, '%');
            append_char(&mut out, hex_digit(b / 16));
            append_char(&mut out, hex_digit(b % 16));
        }
        i = i + 1;
        assert(bytes@.take(i as int).drop_last() == bytes@.take(i - 1));
        assert(out@ == head + escaped(bytes@.take(i as int)));
    }
    assert(bytes@.take(i as int) == bytes@);
    out
}

/// What a lookup does first: show a held record, or ask the service.
pub enum Step {
    Show(WordInfo),
    Fetch,
}

/// The record to show from a store with contents `m`, or `None` where the
/// service must be asked.
pub open spec fn planned(m: Map<Seq<char>, RecordModel>, word: Seq<char>) -> Option<RecordModel> {
    if m.contains_key(word) {
        Some(m[word])
    } else {
        None
    }
}

/// The store answers when it holds the word, exactly as typed; otherwise the
/// service is asked.
pub fn begin_lookup(d: &Dictionary, word: &String) -> (r: Step)
    requires
        d.wf(),
    ensures
        match r {
            Step::Show(w) => planned(d@, word@) == Some(w@),
            Step::Fetch => planned(d@, word@) is None,
        },
{
    match d.get(word) {
        Some(w) => Step::Show(w.copy()),
        None => Step::Fetch,
    }
}

/// Ends a lookup that asked the service: a record is added to the store under
/// `word` and returned; an error leaves the store as it was.
pub fn finish_lookup(d: &mut Dictionary, word: &String, answer: Result<WordInfo, LookupError>) -> (r: Result<WordInfo, LookupError>)
    requires
        old(d).wf(),
        !old(d)@.contains_key(word@),
        answer.is_ok() ==> answer.unwrap()@.wf(),
    ensures
        final(d).wf(),
        outcome_view(r) == outcome_view(answer),
        r.is_ok() ==> final(d)@ == old(d)@.insert(word@, r.unwrap()@),
        r.is_err() ==> final(d)@ == old(d)@,
{
    match answer {
        Ok(w) => {
            let kept = w.copy();
            d.insert(word.clone(), kept);
            Ok(w)
        },
        Err(e) => Err(e),
    }
}

/// After a fetched record is added, a second lookup of the same word is
/// answered by the store, with the same record, and asks the service nothing.
pub proof fn lemma_second_lookup_hits(m: Map<Seq<char>, RecordModel>, word: Seq<char>, rec: RecordModel)
    requires
        planned(m, word) is None,
    ensures
        planned(m.insert(word, rec), word) == Some(rec),
        forall|other: Seq<char>| other != word ==> #[trigger] planned(m.insert(word, rec), other)
            == planned(m, other),
{
}

} // verus!
