use vstd::prelude::*;

use crate::control::{Control, ControlView};
use crate::registry::{Event, EventView};

verus! {

/// The text that a byte sequence spells as UTF-8, or `None` where it is not
/// valid UTF-8.
pub uninterp spec fn utf8_text(bytes: Seq<u8>) -> Option<Seq<char>>;

/// Relies on `String::from_utf8`: it succeeds exactly on valid UTF-8, and the
/// text depends on the bytes alone.
#[verifier::external_body]
fn decode_utf8(bytes: Vec<u8>) -> (r: Option<String>)
    ensures
        r is Some ==> utf8_text(bytes@) == Some(r->0@),
        r is None ==> utf8_text(bytes@) is None,
{
    String::from_utf8(bytes).ok()
}

/// The bytes of a fixed-size native buffer up to its first NUL, or all of
/// them where it holds none.
pub open spec fn until_nul(buf: Seq<u8>) -> Seq<u8>
    decreases buf.len(),
{
    if buf.len() == 0 || buf[0] == 0 {
        Seq::empty()
    } else {
        seq![buf[0]].add(until_nul(buf.drop_first()))
    }
}

proof fn lemma_until_nul_prefix(buf: Seq<u8>, i: int)
    requires
        0 <= i <= buf.len(),
        forall|j: int| 0 <= j < i ==> buf[j] != 0,
        i == buf.len() || buf[i] == 0,
    ensures
        until_nul(buf) == buf.subrange(0, i),
    decreases buf.len(),
{
    if buf.len() > 0 && buf[0] != 0 {
        lemma_until_nul_prefix(buf.drop_first(), i - 1);
        assert(until_nul(buf) =~= buf.subrange(0, i));
    } else {
        assert(buf.subrange(0, i) =~= Seq::<u8>::empty());
    }
}

/// Decodes the text held in a fixed-size native buffer: the bytes before the
/// first NUL, as UTF-8. `None` where those bytes are not valid UTF-8.
pub fn parse_string(buf: &[u8]) -> (r: Option<String>)
    ensures
        r matches Some(s) ==> utf8_text(until_nul(buf@)) == Some(s@),
        r is None ==> utf8_text(until_nul(buf@)) is None,
{
    let mut i: usize = 0;
    while i < buf.len() && buf[i] != 0
        invariant
            i <= buf.len(),
            forall|j: int| 0 <= j < i ==> buf@[j] != 0,
        decreases buf.len() - i,
    {
        i = i + 1;
    }
    let mut bytes: Vec<u8> = Vec::new();
    let mut k: usize = 0;
    while k < i
        invariant
            k <= i <= buf.len(),
            bytes@ == buf@.subrange(0, k as int),
        decreases i - k,
    {
        bytes.push(buf[k]);
        k = k + 1;
        assert(bytes@ =~= buf@.subrange(0, k as int));
    }
    proof {
        lemma_until_nul_prefix(buf@, i as int);
    }
    decode_utf8(bytes)
}

/// The level of a control as the native layer reports it: its low byte.
pub open spec fn level_of(raw: u32) -> u8 {
    (raw % 256) as u8
}

impl Event {
    /// The event for a description reported by the native layer: the
    /// metadata decoded from its three fixed-size buffers, and the level it
    /// reports. `None` where one of the buffers does not hold valid text.
    pub fn description(address: u32, group: &[u8], name: &[u8], func: &[u8], raw: i32) -> (r: Option<Event>)
        ensures
            r is Some <==> (utf8_text(until_nul(group@)) is Some && utf8_text(until_nul(name@)) is Some
                && utf8_text(until_nul(func@)) is Some),
            r is Some ==> r->0@ == (EventView::Description {
                address,
                control: ControlView {
                    group: utf8_text(until_nul(group@))->0,
                    name: utf8_text(until_nul(name@))->0,
                    func: utf8_text(until_nul(func@))->0,
                    value: level_of(raw as u32),
                },
            }),
    {
        let group = match parse_string(group) {
            Some(s) => s,
            None => return None,
        };
        let name = match parse_string(name) {
            Some(s) => s,
            None => return None,
        };
        let func = match parse_string(func) {
            Some(s) => s,
            None => return None,
        };
        #[verifier::truncate]
        let raw = raw as u32;
        let value: u8 = (raw % 256) as u8;
        Some(Event::Description { address, control: Control { group, name, func, value } })
    }

    /// The event for a level change reported by the native layer.
    pub fn value_change(address: u32, raw: u32) -> (r: Event)
        ensures
            r@ == (EventView::Value { address, value: level_of(raw) }),
    {
        Event::Value { address, value: (raw % 256) as u8 }
    }
}

} // verus!
