use vstd::prelude::*;

use crate::error::{DeviceError, DeviceErrorView};

verus! {

/// Whether a device records or plays sound.
#[derive(Debug, Clone, Copy, PartialEq, Eq, Structural)]
pub enum DeviceKind {
    Input,
    Output,
}

/// A device as the host reports it. `id` is an opaque handle, unique among
/// the devices of one kind; `name` is for display only.
#[derive(Debug)]
pub struct AudioDevice {
    pub id: String,
    pub name: String,
    pub kind: DeviceKind,
}

/// The mathematical value of an [`AudioDevice`].
pub struct AudioDeviceView {
    pub id: Seq<char>,
    pub name: Seq<char>,
    pub kind: DeviceKind,
}

impl View for AudioDevice {
    type V = AudioDeviceView;

    open spec fn view(&self) -> AudioDeviceView {
        AudioDeviceView { id: self.id@, name: self.name@, kind: self.kind }
    }
}

impl AudioDevice {
    /// A copy with the same value.
    pub fn duplicate(&self) -> (r: AudioDevice)
        ensures
            r@ == self@,
    {
        AudioDevice { id: self.id.clone(), name: self.name.clone(), kind: self.kind }
    }
}

pub open spec fn devices_view(v: Seq<AudioDevice>) -> Seq<AudioDeviceView> {
    v.map_values(|d: AudioDevice| d@)
}

/// What identifies a device: its kind and its id.
pub open spec fn device_key(d: AudioDeviceView) -> (DeviceKind, Seq<char>) {
    (d.kind, d.id)
}

/// Whether a device with this key occurs in `s`.
pub open spec fn has_key(s: Seq<AudioDeviceView>, key: (DeviceKind, Seq<char>)) -> bool {
    exists|j: int| 0 <= j < s.len() && device_key(#[trigger] s[j]) == key
}

/// The keys of the devices in `s`.
pub open spec fn key_set(s: Seq<AudioDeviceView>) -> Set<(DeviceKind, Seq<char>)> {
    Set::new(|key: (DeviceKind, Seq<char>)| has_key(s, key))
}

/// No key occurs twice in `s`.
pub open spec fn keys_unique(s: Seq<AudioDeviceView>) -> bool {
    forall|a: int, b: int| 0 <= a < b < s.len() ==> device_key(#[trigger] s[a]) != device_key(#[trigger] s[b])
}

/// The devices of `s`, each key kept at its first occurrence, in the host's order.
pub open spec fn first_occurrences(s: Seq<AudioDeviceView>) -> Seq<AudioDeviceView>
    decreases s.len(),
{
    if s.len() == 0 {
        seq![]
    } else {
        let p = first_occurrences(s.drop_last());
        if has_key(s.drop_last(), device_key(s.last())) {
            p
        } else {
            p.push(s.last())
        }
    }
}

/// Dropping repeated keys keeps every key and leaves none twice.
pub proof fn lemma_first_occurrences(s: Seq<AudioDeviceView>)
    ensures
        forall|key: (DeviceKind, Seq<char>)| has_key(first_occurrences(s), key) == has_key(s, key),
        keys_unique(first_occurrences(s)),
    decreases s.len(),
{
    if s.len() > 0 {
        let q = s.drop_last();
        lemma_first_occurrences(q);
        let p = first_occurrences(q);
        assert forall|key: (DeviceKind, Seq<char>)| has_key(first_occurrences(s), key) == has_key(s, key) by {
            if has_key(s, key) {
                let j = choose|j: int| 0 <= j < s.len() && device_key(#[trigger] s[j]) == key;
                if j < q.len() {
                    assert(q[j] == s[j]);
                    assert(has_key(q, key));
                }
                if !has_key(q, key) {
                    assert(j == s.len() - 1);
                    assert(first_occurrences(s) == p.push(s.last()));
                    assert(first_occurrences(s)[p.len() as int] == s.last());
                }
            }
            if has_key(q, key) {
                let j = choose|j: int| 0 <= j < q.len() && device_key(#[trigger] q[j]) == key;
                assert(s[j] == q[j]);
            }
            if has_key(first_occurrences(s), key) && !has_key(p, key) {
                assert(first_occurrences(s) == p.push(s.last()));
                let j = choose|j: int|
                    0 <= j < first_occurrences(s).len() && device_key(#[trigger] first_occurrences(s)[j]) == key;
                if j < p.len() {
                    assert(first_occurrences(s)[j] == p[j]);
                }
                assert(s[s.len() - 1] == s.last());
            }
            if has_key(p, key) && first_occurrences(s) == p.push(s.last()) {
                let j = choose|j: int| 0 <= j < p.len() && device_key(#[trigger] p[j]) == key;
                assert(first_occurrences(s)[j] == p[j]);
            }
        }
        if !has_key(q, device_key(s.last())) {
            let r = p.push(s.last());
            assert forall|a: int, b: int| 0 <= a < b < r.len() implies device_key(#[trigger] r[a]) != device_key(
                #[trigger] r[b],
            ) by {
                if b == p.len() {
                    assert(r[a] == p[a]);
                    if device_key(p[a]) == device_key(s.last()) {
                        assert(has_key(p, device_key(s.last())));
                    }
                } else {
                    assert(r[a] == p[a] && r[b] == p[b]);
                }
            }
        }
    }
}

/// When the host reports no device twice, its listing is kept as it is,
/// order included.
pub proof fn lemma_unique_listing_unchanged(s: Seq<AudioDeviceView>)
    requires
        keys_unique(s),
    ensures
        first_occurrences(s) == s,
    decreases s.len(),
{
    if s.len() > 0 {
        let q = s.drop_last();
        assert forall|a: int, b: int| 0 <= a < b < q.len() implies device_key(#[trigger] q[a]) != device_key(
            #[trigger] q[b],
        ) by {
            assert(q[a] == s[a] && q[b] == s[b]);
        }
        lemma_unique_listing_unchanged(q);
        if has_key(q, device_key(s.last())) {
            let j = choose|j: int| 0 <= j < q.len() && device_key(#[trigger] q[j]) == device_key(s.last());
            assert(q[j] == s[j]);
            assert(device_key(s[j]) != device_key(s[s.len() - 1]));
        }
        assert(q.push(s.last()) =~= s);
    }
}

/// Whether `listing` holds an output device with this id.
pub open spec fn is_listed_output(listing: Seq<AudioDeviceView>, id: Seq<char>) -> bool {
    has_key(listing, (DeviceKind::Output, id))
}

/// Whether some device in `v` has this kind and id.
fn contains_device(v: &Vec<AudioDevice>, kind: DeviceKind, id: &String) -> (r: bool)
    ensures
        r == has_key(devices_view(v@), (kind, id@)),
{
    let mut k: usize = 0;
    while k < v.len()
        invariant
            k <= v.len(),
            forall|j: int| 0 <= j < k ==> device_key(#[trigger] devices_view(v@)[j]) != (kind, id@),
        decreases v.len() - k,
    {
        if v[k].kind == kind && v[k].id == *id {
            assert(device_key(devices_view(v@)[k as int]) == (kind, id@));
            return true;
        }
        k = k + 1;
    }
    false
}

/// The host's listing with repeated devices dropped: each (kind, id) is kept
/// where it first occurs, and the host's order is preserved.
pub fn unique_devices(raw: &Vec<AudioDevice>) -> (r: Vec<AudioDevice>)
    ensures
        devices_view(r@) == first_occurrences(devices_view(raw@)),
        key_set(devices_view(r@)) == key_set(devices_view(raw@)),
        keys_unique(devices_view(r@)),
{
    let ghost s = devices_view(raw@);
    let mut out: Vec<AudioDevice> = Vec::new();
    let mut i: usize = 0;
    while i < raw.len()
        invariant
            i <= raw.len(),
            s == devices_view(raw@),
            devices_view(out@) == first_occurrences(s.take(i as int)),
        decreases raw.len() - i,
    {
        proof {
            lemma_first_occurrences(s.take(i as int));
            assert(s.take(i as int + 1).drop_last() =~= s.take(i as int));
            assert(s.take(i as int + 1).last() == raw@[i as int]@);
        }
        let seen = contains_device(&out, raw[i].kind, &raw[i].id);
        if !seen {
            out.push(raw[i].duplicate());
            assert(devices_view(out@) =~= first_occurrences(s.take(i as int)).push(raw@[i as int]@));
        }
        i = i + 1;
    }
    assert(s.take(raw.len() as int) =~= s);
    proof {
        lemma_first_occurrences(s);
        assert(key_set(devices_view(out@)) =~= key_set(s));
    }
    out
}

/// The devices of the built-in sound card: a microphone and speakers.
pub open spec fn builtin_listing() -> Seq<AudioDeviceView> {
    seq![
        AudioDeviceView { id: "input1"@, name: "Built-in Microphone"@, kind: DeviceKind::Input },
        AudioDeviceView { id: "output1"@, name: "Built-in Speakers"@, kind: DeviceKind::Output },
    ]
}

/// The listing of a machine with only its built-in sound card, for a host
/// without a platform audio backend.
pub fn builtin_devices() -> (r: Vec<AudioDevice>)
    ensures
        devices_view(r@) == builtin_listing(),
{
    let r = vec![
        AudioDevice {
            id: String::from_str("input1"),
            name: String::from_str("Built-in Microphone"),
            kind: DeviceKind::Input,
        },
        AudioDevice {
            id: String::from_str("output1"),
            name: String::from_str("Built-in Speakers"),
            kind: DeviceKind::Output,
        },
    ];
    assert(devices_view(r@) =~= builtin_listing());
    r
}

/// The (id, display name) pairs of a listing, in its order.
pub fn device_pairs(listing: &Vec<AudioDevice>) -> (r: Vec<(String, String)>)
    ensures
        r@.len() == listing@.len(),
        forall|k: int|
            0 <= k < r@.len() ==> (#[trigger] r@[k]).0@ == listing@[k].id@ && r@[k].1@ == listing@[k].name@,
{
    let mut r: Vec<(String, String)> = Vec::new();
    let mut k: usize = 0;
    while k < listing.len()
        invariant
            k <= listing.len(),
            r@.len() == k,
            forall|j: int|
                0 <= j < k ==> (#[trigger] r@[j]).0@ == listing@[j].id@ && r@[j].1@ == listing@[j].name@,
        decreases listing.len() - k,
    {
        r.push((listing[k].id.clone(), listing[k].name.clone()));
        k = k + 1;
    }
    r
}

/// The device state of one running application: the last listing the host
/// gave, and the output device that playback is routed to (`None` for the
/// system default). Only a confirmed switch changes the latter.
pub struct DeviceSession {
    listing: Vec<AudioDevice>,
    active_output: Option<String>,
}

/// The mathematical value of a [`DeviceSession`].
pub struct DeviceSessionView {
    pub listing: Seq<AudioDeviceView>,
    pub active_output: Option<Seq<char>>,
}

impl View for DeviceSession {
    type V = DeviceSessionView;

    closed spec fn view(&self) -> DeviceSessionView {
        DeviceSessionView {
            listing: devices_view(self.listing@),
            active_output: match self.active_output {
                Some(id) => Some(id@),
                None => None,
            },
        }
    }
}

/// What a request to route output to `id` does to the session, once the host
/// has answered `host` (it is only asked when `id` is listed).
pub open spec fn switch_result(
    s: DeviceSessionView,
    id: Seq<char>,
    host: Result<(), Seq<char>>,
) -> (DeviceSessionView, Result<(), DeviceErrorView>) {
    if !is_listed_output(s.listing, id) {
        (s, Err(DeviceErrorView::UnknownDevice))
    } else {
        match host {
            Ok(_) => (DeviceSessionView { active_output: Some(id), ..s }, Ok(())),
            Err(m) => (s, Err(DeviceErrorView::SwitchFailed(m))),
        }
    }
}

pub open spec fn host_view(host: Result<(), String>) -> Result<(), Seq<char>> {
    match host {
        Ok(_) => Ok(()),
        Err(m) => Err(m@),
    }
}

impl DeviceSession {
    /// A session with no listing yet, playing to the system default.
    pub fn new() -> (r: DeviceSession)
        ensures
            r@.listing == Seq::<AudioDeviceView>::empty(),
            r@.active_output is None,
    {
        let r = DeviceSession { listing: Vec::new(), active_output: None };
        assert(r@.listing =~= Seq::<AudioDeviceView>::empty());
        r
    }

    /// The listing last recorded.
    pub fn listing(&self) -> (r: &Vec<AudioDevice>)
        ensures
            devices_view(r@) == self@.listing,
    {
        &self.listing
    }

    /// The output device playback is routed to, `None` for the system default.
    pub fn active_output(&self) -> (r: Option<String>)
        ensures
            match r {
                Some(id) => self@.active_output == Some(id@),
                None => self@.active_output is None,
            },
    {
        match &self.active_output {
            Some(id) => Some(id.clone()),
            None => None,
        }
    }

    /// Takes the host's answer to a device query. A listing is recorded
    /// without repeated devices, to be read with `listing`; a failed query is
    /// reported and leaves the session as it was.
    pub fn record_listing(&mut self, host: Result<Vec<AudioDevice>, String>) -> (r: Result<(), DeviceError>)
        ensures
            match host {
                Ok(raw) => {
                    &&& r is Ok
                    &&& final(self)@.listing == first_occurrences(devices_view(raw@))
                    &&& keys_unique(final(self)@.listing)
                    &&& final(self)@.active_output == old(self)@.active_output
                },
                Err(m) => {
                    &&& r matches Err(e) && e@ == DeviceErrorView::QueryFailed(m@)
                    &&& final(self)@ == old(self)@
                },
            },
    {
        match host {
            Ok(raw) => {
                self.listing = unique_devices(&raw);
                Ok(())
            },
            Err(m) => Err(DeviceError::QueryFailed(m)),
        }
    }

    /// Checks, before the host is asked, that `id` names an output device of
    /// the last listing.
    pub fn check_output(&self, id: &String) -> (r: Result<(), DeviceError>)
        ensures
            r is Ok <==> is_listed_output(self@.listing, id@),
            r matches Err(e) ==> e@ == DeviceErrorView::UnknownDevice,
    {
        if contains_device(&self.listing, DeviceKind::Output, id) {
            Ok(())
        } else {
            Err(DeviceError::UnknownDevice)
        }
    }

    /// Takes the host's answer to a request to route output to `id`. The
    /// active device changes only when `id` is a listed output device and
    /// the host confirmed the switch.
    pub fn apply_switch(&mut self, id: &String, host: Result<(), String>) -> (r: Result<(), DeviceError>)
        ensures
            final(self)@ == switch_result(old(self)@, id@, host_view(host)).0,
            match (r, switch_result(old(self)@, id@, host_view(host)).1) {
                (Ok(_), Ok(_)) => true,
                (Err(e), Err(v)) => e@ == v,
                _ => false,
            },
    {
        if !contains_device(&self.listing, DeviceKind::Output, id) {
            return Err(DeviceError::UnknownDevice);
        }
        match host {
            Ok(_) => {
                self.active_output = Some(id.clone());
                Ok(())
            },
            Err(m) => Err(DeviceError::SwitchFailed(m)),
        }
    }
}

/// Recording the same host listing twice gives the same devices both times;
/// every device the host reported is kept, and no (kind, id) twice.
pub proof fn lemma_listing_stable(raw: Seq<AudioDeviceView>, s1: DeviceSessionView, s2: DeviceSessionView)
    requires
        s1.listing == first_occurrences(raw),
        s2.listing == first_occurrences(raw),
    ensures
        s1.listing == s2.listing,
        key_set(s1.listing) == key_set(raw),
        keys_unique(s1.listing),
{
    lemma_first_occurrences(raw);
    assert(key_set(s1.listing) =~= key_set(raw));
}

/// A request for an id that is no output device of the last listing fails
/// as unknown, whatever the host would say, and the active output device
/// stays as it was; so does the listing.
pub proof fn lemma_unknown_device_rejected(s: DeviceSessionView, id: Seq<char>, host: Result<(), Seq<char>>)
    requires
        !is_listed_output(s.listing, id),
    ensures
        switch_result(s, id, host).1 == Err::<(), DeviceErrorView>(DeviceErrorView::UnknownDevice),
        switch_result(s, id, host).0 == s,
{
}

} // verus!
