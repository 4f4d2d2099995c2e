//! Watching hot-plug events: the devices known so far, keyed by the text of
//! their identifiers, and what a connect or a disconnect event reports.

use vstd::prelude::*;

use crate::lines::{cat2, push_line};
use crate::readback::strings_view;
use crate::text::{chars_eq, chars_of, decimal, decimal_string, owned};
use crate::usb::{
    disconnect_event_lines, spec_disconnect_lines, spec_watch_event_lines, watch_event_lines, UsbDeviceFacts,
};

verus! {

// ---------------------------------------------------------------------
// Model
// ---------------------------------------------------------------------

/// The map that a list of (identifier, device) entries stands for; a later
/// entry wins over an earlier one with the same identifier.
pub open spec fn entries_map(es: Seq<(Seq<char>, UsbDeviceFacts)>) -> Map<Seq<char>, UsbDeviceFacts>
    decreases es.len(),
{
    if es.len() == 0 {
        Map::empty()
    } else {
        entries_map(es.drop_last()).insert(es.last().0, es.last().1)
    }
}

/// The identifiers of a list of entries, in order.
pub open spec fn entry_ids(es: Seq<(Seq<char>, UsbDeviceFacts)>) -> Seq<Seq<char>> {
    es.map_values(|e: (Seq<char>, UsbDeviceFacts)| e.0)
}

/// What is known of the device with identifier `id`.
pub open spec fn known_lookup(m: Map<Seq<char>, UsbDeviceFacts>, id: Seq<char>) -> Option<UsbDeviceFacts> {
    if m.dom().contains(id) {
        Some(m[id])
    } else {
        None
    }
}

proof fn lemma_entries_dom(es: Seq<(Seq<char>, UsbDeviceFacts)>, k: Seq<char>)
    ensures
        entries_map(es).dom().contains(k) <==> entry_ids(es).contains(k),
    decreases es.len(),
{
    if es.len() > 0 {
        let rest = es.drop_last();
        lemma_entries_dom(rest, k);
        assert(entry_ids(es) =~= entry_ids(rest).push(es.last().0));
        if entry_ids(rest).contains(k) {
            let j = choose|j: int| 0 <= j < entry_ids(rest).len() && entry_ids(rest)[j] == k;
            assert(entry_ids(es)[j] == k);
        }
        if entry_ids(es).contains(k) && k != es.last().0 {
            let j = choose|j: int| 0 <= j < entry_ids(es).len() && entry_ids(es)[j] == k;
            assert(j < rest.len());
            assert(entry_ids(rest)[j] == k);
        }
        if k == es.last().0 {
            assert(entry_ids(es)[es.len() - 1] == k);
        }
    }
}

proof fn lemma_last_id_is_new(es: Seq<(Seq<char>, UsbDeviceFacts)>)
    requires
        es.len() > 0,
        entry_ids(es).no_duplicates(),
    ensures
        !entry_ids(es.drop_last()).contains(es.last().0),
        entry_ids(es.drop_last()).no_duplicates(),
{
    let rest = es.drop_last();
    if entry_ids(rest).contains(es.last().0) {
        let j = choose|j: int| 0 <= j < entry_ids(rest).len() && entry_ids(rest)[j] == es.last().0;
        assert(entry_ids(es)[j] == entry_ids(es)[es.len() - 1]);
    }
    assert forall|a: int, b: int|
        0 <= a < entry_ids(rest).len() && 0 <= b < entry_ids(rest).len() && a != b implies entry_ids(rest)[a]
        != entry_ids(rest)[b] by {
        assert(entry_ids(es)[a] != entry_ids(es)[b]);
    }
}

proof fn lemma_entries_value(es: Seq<(Seq<char>, UsbDeviceFacts)>, i: int)
    requires
        entry_ids(es).no_duplicates(),
        0 <= i < es.len(),
    ensures
        entries_map(es).dom().contains(es[i].0),
        entries_map(es)[es[i].0] == es[i].1,
    decreases es.len(),
{
    let rest = es.drop_last();
    if i < es.len() - 1 {
        assert(entry_ids(es)[i] != entry_ids(es)[es.len() - 1]);
        lemma_last_id_is_new(es);
        lemma_entries_value(rest, i);
        assert(rest[i] == es[i]);
    }
}

proof fn lemma_ids_after_remove(es: Seq<(Seq<char>, UsbDeviceFacts)>, i: int)
    requires
        entry_ids(es).no_duplicates(),
        0 <= i < es.len(),
    ensures
        entry_ids(es.remove(i)).no_duplicates(),
        !entry_ids(es.remove(i)).contains(es[i].0),
{
    let r = es.remove(i);
    es.remove_ensures(i);
    assert forall|a: int, b: int|
        0 <= a < entry_ids(r).len() && 0 <= b < entry_ids(r).len() && a != b implies entry_ids(r)[a]
        != entry_ids(r)[b] by {
        let oa = if a < i {
            a
        } else {
            a + 1
        };
        let ob = if b < i {
            b
        } else {
            b + 1
        };
        assert(r[a] == es[oa]);
        assert(r[b] == es[ob]);
        assert(entry_ids(es)[oa] != entry_ids(es)[ob]);
    }
    if entry_ids(r).contains(es[i].0) {
        let j = choose|j: int| 0 <= j < entry_ids(r).len() && entry_ids(r)[j] == es[i].0;
        let oj = if j < i {
            j
        } else {
            j + 1
        };
        assert(r[j] == es[oj]);
        assert(entry_ids(es)[oj] == entry_ids(es)[i]);
    }
}

proof fn lemma_entries_remove(es: Seq<(Seq<char>, UsbDeviceFacts)>, i: int)
    requires
        entry_ids(es).no_duplicates(),
        0 <= i < es.len(),
    ensures
        entries_map(es.remove(i)) =~= entries_map(es).remove(es[i].0),
    decreases es.len(),
{
    let rest = es.drop_last();
    lemma_last_id_is_new(es);
    if i == es.len() - 1 {
        assert(es.remove(i) =~= rest);
        lemma_entries_dom(rest, es.last().0);
    } else {
        assert(entry_ids(es)[i] != entry_ids(es)[es.len() - 1]);
        assert(es.remove(i) =~= rest.remove(i).push(es.last()));
        lemma_entries_remove(rest, i);
        assert(rest[i] == es[i]);
        assert(rest.remove(i).push(es.last()).drop_last() =~= rest.remove(i));
    }
}

// ---------------------------------------------------------------------
// Known devices
// ---------------------------------------------------------------------

/// The devices known while watching, by the text of their identifiers.
pub struct KnownDevices {
    entries: Vec<(String, UsbDeviceFacts)>,
}

/// A list of entries, with identifiers taken as text.
pub open spec fn entries_of(v: Seq<(String, UsbDeviceFacts)>) -> Seq<(Seq<char>, UsbDeviceFacts)> {
    v.map_values(|e: (String, UsbDeviceFacts)| (e.0@, e.1))
}

impl KnownDevices {
    /// The entries, with identifiers taken as text.
    pub closed spec fn entries_view(&self) -> Seq<(Seq<char>, UsbDeviceFacts)> {
        entries_of(self.entries@)
    }

    /// No identifier is listed twice.
    #[verifier::type_invariant]
    spec fn ids_distinct(self) -> bool {
        entry_ids(entries_of(self.entries@)).no_duplicates()
    }
}

impl View for KnownDevices {
    type V = Map<Seq<char>, UsbDeviceFacts>;

    closed spec fn view(&self) -> Map<Seq<char>, UsbDeviceFacts> {
        entries_map(self.entries_view())
    }
}

/// The position of the entry with identifier `id`, if any.
fn position_in(entries: &Vec<(String, UsbDeviceFacts)>, id: &Vec<char>) -> (r: Option<usize>)
    ensures
        match r {
            Some(i) => i < entries@.len() && entries_of(entries@)[i as int].0 == id@,
            None => !entry_ids(entries_of(entries@)).contains(id@),
        },
{
    let mut i: usize = 0;
    while i < entries.len()
        invariant
            i <= entries@.len(),
            forall|j: int| 0 <= j < i ==> (#[trigger] entries_of(entries@)[j]).0 != id@,
        decreases entries@.len() - i,
    {
        if chars_eq(&chars_of(entries[i].0.as_str()), id) {
            return Some(i);
        }
        i = i + 1;
    }
    proof {
        if entry_ids(entries_of(entries@)).contains(id@) {
            let j = choose|j: int|
                0 <= j < entry_ids(entries_of(entries@)).len() && entry_ids(entries_of(entries@))[j] == id@;
            assert(entries_of(entries@)[j].0 == id@);
        }
    }
    None
}

impl KnownDevices {
    /// No device known.
    pub fn new() -> (r: KnownDevices)
        ensures
            r@ == Map::<Seq<char>, UsbDeviceFacts>::empty(),
    {
        let entries: Vec<(String, UsbDeviceFacts)> = Vec::new();
        assert(entries_of(entries@) =~= Seq::<(Seq<char>, UsbDeviceFacts)>::empty());
        KnownDevices { entries }
    }

    /// How many devices are known.
    pub fn len(&self) -> (r: usize)
        ensures
            self@.dom().finite(),
            r == self@.dom().len(),
    {
        proof {
            use_type_invariant(self);
        }
        let ghost es = self.entries_view();
        assert forall|k: Seq<char>| self@.dom().contains(k) <==> entry_ids(es).to_set().contains(k) by {
            lemma_entries_dom(es, k);
        }
        assert(self@.dom() =~= entry_ids(es).to_set());
        proof {
            entry_ids(es).unique_seq_to_set();
        }
        self.entries.len()
    }

    /// Records `device` under `id`, in place of what was known under it.
    pub fn remember(&mut self, id: String, device: UsbDeviceFacts)
        ensures
            final(self)@ == old(self)@.insert(id@, device),
    {
        proof {
            use_type_invariant(&*self);
        }
        let ghost es0 = self.entries_view();
        let mut entries: Vec<(String, UsbDeviceFacts)> = Vec::new();
        std::mem::swap(&mut entries, &mut self.entries);
        assert(entries_of(entries@) == es0);
        let key = chars_of(id.as_str());
        let ghost key_view = id@;
        let ghost e = (key_view, device);
        match position_in(&entries, &key) {
            Some(i) => {
                entries.remove(i);
                proof {
                    assert(entries_of(entries@) =~= es0.remove(i as int));
                    lemma_ids_after_remove(es0, i as int);
                    lemma_entries_remove(es0, i as int);
                }
            },
            None => {},
        }
        let ghost es1 = entries_of(entries@);
        assert(!entry_ids(es1).contains(key_view));
        entries.push((id, device));
        let ghost es2 = entries_of(entries@);
        proof {
            assert(es2 =~= es1.push(e));
            assert(es2.drop_last() =~= es1);
            assert(entry_ids(es2) =~= entry_ids(es1).push(key_view));
            assert forall|a: int, b: int|
                0 <= a < entry_ids(es2).len() && 0 <= b < entry_ids(es2).len() && a != b implies entry_ids(es2)[a]
                != entry_ids(es2)[b] by {
                if a == es1.len() {
                    assert(entry_ids(es1)[b] != key_view);
                } else if b == es1.len() {
                    assert(entry_ids(es1)[a] != key_view);
                }
            }
        }
        self.entries = entries;
        assert(self@ =~= old(self)@.insert(key_view, device));
    }

    /// Drops what is known under `id`, and hands it back.
    pub fn forget(&mut self, id: &str) -> (r: Option<UsbDeviceFacts>)
        ensures
            final(self)@ == old(self)@.remove(id@),
            r == known_lookup(old(self)@, id@),
    {
        proof {
            use_type_invariant(&*self);
        }
        let ghost es0 = self.entries_view();
        match position_in(&self.entries, &chars_of(id)) {
            Some(i) => {
                proof {
                    lemma_entries_value(es0, i as int);
                }
                let mut entries: Vec<(String, UsbDeviceFacts)> = Vec::new();
                std::mem::swap(&mut entries, &mut self.entries);
                assert(entries_of(entries@) == es0);
                let entry = entries.remove(i);
                proof {
                    assert(entries_of(entries@) =~= es0.remove(i as int));
                    lemma_ids_after_remove(es0, i as int);
                    lemma_entries_remove(es0, i as int);
                }
                self.entries = entries;
                Some(entry.1)
            },
            None => {
                proof {
                    lemma_entries_dom(es0, id@);
                }
                assert(self@ =~= old(self)@.remove(id@));
                None
            },
        }
    }

    /// Reports a device that connected, and records it.
    pub fn connected(&mut self, id: String, timestamp: u64, device: UsbDeviceFacts) -> (r: Vec<String>)
        ensures
            final(self)@ == old(self)@.insert(id@, device),
            strings_view(r@) == spec_watch_event_lines("connected"@, timestamp, device),
    {
        let lines = watch_event_lines("connected", timestamp, &device);
        self.remember(id, device);
        lines
    }

    /// Reports a device that disconnected, with what was known of it, and
    /// forgets it.
    pub fn disconnected(&mut self, id: &str, timestamp: u64) -> (r: Vec<String>)
        ensures
            final(self)@ == old(self)@.remove(id@),
            strings_view(r@) == spec_disconnect_lines(timestamp, id@, known_lookup(old(self)@, id@)),
    {
        let removed = self.forget(id);
        match &removed {
            Some(d) => disconnect_event_lines(timestamp, id, Some(d)),
            None => disconnect_event_lines(timestamp, id, None),
        }
    }
}

/// The lines that open a watch over `known` devices.
pub open spec fn spec_watch_started(known: usize) -> Seq<Seq<char>> {
    seq!["usb_watch_started=true"@, "known_devices="@ + decimal(known as nat), "waiting_for_changes=true"@]
}

/// The lines that open a watch (see [`spec_watch_started`]).
pub fn watch_started_lines(known: usize) -> (r: Vec<String>)
    ensures
        strings_view(r@) == spec_watch_started(known),
{
    let mut lines: Vec<String> = Vec::new();
    push_line(&mut lines, owned("usb_watch_started=true"));
    push_line(&mut lines, cat2("known_devices=", decimal_string(known as u64).as_str()));
    push_line(&mut lines, owned("waiting_for_changes=true"));
    lines
}

// ---------------------------------------------------------------------
// Laws
// ---------------------------------------------------------------------

/// A device that connects is reported, when it disconnects, with the
/// details it connected with, and is then forgotten; the records of other
/// devices are left as they were.
pub proof fn law_disconnect_reports_connected_device(
    m: Map<Seq<char>, UsbDeviceFacts>,
    id: Seq<char>,
    other: Seq<char>,
    d: UsbDeviceFacts,
    timestamp: u64,
)
    ensures
        known_lookup(m.insert(id, d), id) == Some(d),
        spec_disconnect_lines(timestamp, id, known_lookup(m.insert(id, d), id)) == spec_disconnect_lines(
            timestamp,
            id,
            Some(d),
        ),
        m.insert(id, d).remove(id) == m.remove(id),
        other != id ==> known_lookup(m.insert(id, d), other) == known_lookup(m, other),
{
    assert(m.insert(id, d).remove(id) =~= m.remove(id));
}

/// A device that disconnected is unknown: disconnecting it again reports
/// no details.
pub proof fn law_second_disconnect_has_no_details(m: Map<Seq<char>, UsbDeviceFacts>, id: Seq<char>, timestamp: u64)
    ensures
        known_lookup(m.remove(id), id) is None,
        spec_disconnect_lines(timestamp, id, known_lookup(m.remove(id), id)) == spec_disconnect_lines(
            timestamp,
            id,
            None,
        ),
{
}

} // verus!
