//! The string table: texts under small integer keys, so that an
//! instruction can name a text that it repeats by its key.

use std::collections::HashMap;
use vstd::prelude::*;
use vstd::slice::slice_to_vec;
use vstd::utf8::{decode_utf8, valid_utf8};
use crate::decoder::{get_delimited, get_u32, in_bounds, le_u32, text_end};
use crate::error::Error;
use crate::native_span::SpanString;
use crate::text::text_from_utf8;

verus! {

/// One entry of a bulk-load region: its key, its text, and the place of the
/// entry after it.
pub struct Entry {
    pub key: u32,
    pub text: Seq<char>,
    pub next: int,
}

/// The entry of a bulk-load region that starts at `pos`: a `u32` key, then
/// UTF-8 text up to a zero byte. The entry after it starts behind that byte.
pub open spec fn decode_entry(bytes: Seq<u8>, pos: int) -> Result<Entry, Error> {
    if !in_bounds(bytes.len(), pos, 4) {
        Err(Error::BufferTooShort)
    } else {
        let end = text_end(bytes, pos + 4);
        if end >= bytes.len() {
            Err(Error::BufferTooShort)
        } else if !valid_utf8(bytes.subrange(pos + 4, end)) {
            Err(Error::InvalidUtf8)
        } else {
            Ok(
                Entry {
                    key: le_u32(bytes, pos) as u32,
                    text: decode_utf8(bytes.subrange(pos + 4, end)),
                    next: end + 1,
                },
            )
        }
    }
}

/// How a bulk load ended: the string table it left, and the failure that
/// stopped it, if one did.
pub struct Loaded {
    pub strings: Map<u32, Seq<char>>,
    pub error: Option<Error>,
}

/// Puts `remaining` entries of `bytes`, the first at `pos`, into `strings`,
/// one after the other. The first entry that does not decode stops the
/// load: the entries before it stay.
pub open spec fn load_from(strings: Map<u32, Seq<char>>, bytes: Seq<u8>, pos: int, remaining: nat) -> Loaded
    decreases remaining,
{
    if remaining == 0 {
        Loaded { strings, error: None }
    } else {
        match decode_entry(bytes, pos) {
            Err(e) => Loaded { strings, error: Some(e) },
            Ok(entry) => load_from(
                strings.insert(entry.key, entry.text),
                bytes,
                entry.next,
                (remaining - 1) as nat,
            ),
        }
    }
}

/// The text under `key`, or `UnknownStringKey`: a reference that does not
/// resolve is a failure, never an empty text.
pub open spec fn resolved(strings: Map<u32, Seq<char>>, key: u32) -> Result<Seq<char>, Error> {
    if strings.contains_key(key) {
        Ok(strings[key])
    } else {
        Err(Error::UnknownStringKey(key))
    }
}

/// The interned texts. The table has no size cap and evicts nothing by
/// itself: its caller removes what is no longer needed.
pub struct StringTable {
    entries: HashMap<u32, SpanString>,
}

impl View for StringTable {
    type V = Map<u32, Seq<char>>;

    closed spec fn view(&self) -> Map<u32, Seq<char>> {
        Map::new(|k: u32| self.entries@.contains_key(k), |k: u32| self.entries@[k]@)
    }
}

impl StringTable {
    /// The empty table.
    pub fn new() -> (r: Self)
        ensures
            r@ == Map::<u32, Seq<char>>::empty(),
    {
        let r = StringTable { entries: HashMap::new() };
        assert(r@ =~= Map::<u32, Seq<char>>::empty());
        r
    }

    /// Puts `text` under `key`, in place of what was there.
    pub fn insert_one(&mut self, key: u32, text: String)
        ensures
            final(self)@ == old(self)@.insert(key, text@),
    {
        self.entries.insert(key, SpanString(text));
        assert(final(self)@ =~= old(self)@.insert(key, text@));
    }

    /// Puts `count` entries of the bulk-load region `input` into the table.
    /// An entry is a `u32` key and UTF-8 text that a zero byte ends. The
    /// first entry that is cut short or is not UTF-8 ends the load with its
    /// error; the entries before it stay in the table.
    pub fn insert_many(&mut self, input: &[u8], count: u32) -> (r: Result<(), Error>)
        ensures
            final(self)@ == load_from(old(self)@, input@, 0, count as nat).strings,
            match load_from(old(self)@, input@, 0, count as nat).error {
                None => r is Ok,
                Some(e) => r == Err::<(), Error>(e),
            },
    {
        let mut index: usize = 0;
        let mut remaining: u32 = count;
        while remaining > 0
            invariant
                load_from(self@, input@, index as int, remaining as nat) == load_from(
                    old(self)@,
                    input@,
                    0,
                    count as nat,
                ),
            decreases remaining,
        {
            let key: u32 = match get_u32(input, &mut index) {
                Ok(k) => k,
                Err(e) => { return Err(e); },
            };
            let raw = match get_delimited(input, &mut index) {
                Ok(raw) => slice_to_vec(raw),
                Err(e) => { return Err(e); },
            };
            let text = match text_from_utf8(raw) {
                Some(text) => text,
                None => { return Err(Error::InvalidUtf8); },
            };
            let ghost before = self@;
            self.entries.insert(key, SpanString(text));
            assert(self@ =~= before.insert(key, text@));
            remaining -= 1;
        }
        Ok(())
    }

    /// Takes `key` out of the table; a key that is not there changes
    /// nothing.
    pub fn evict(&mut self, key: u32)
        ensures
            final(self)@ == old(self)@.remove(key),
    {
        self.entries.remove(&key);
        assert(final(self)@ =~= old(self)@.remove(key));
    }

    /// The text under `key`.
    pub fn resolve(&self, key: u32) -> (r: Result<SpanString, Error>)
        ensures
            match r {
                Ok(s) => resolved(self@, key) == Ok::<Seq<char>, Error>(s@),
                Err(e) => resolved(self@, key) == Err::<Seq<char>, Error>(e),
            },
    {
        match self.entries.get(&key) {
            Some(s) => Ok(s.clone()),
            None => Err(Error::UnknownStringKey(key)),
        }
    }
}

} // verus!
