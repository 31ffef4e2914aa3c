//! Per-endpoint user settings: which endpoints are enabled.
use vstd::prelude::*;

verus! {

/// The stored setting of one endpoint.
#[derive(Debug)]
pub struct DeviceSetting {
    /// Friendly name, for reference.
    pub name: String,
    /// The endpoint is enabled.
    pub enabled: bool,
}

/// `settings` after seeing endpoint `id` named `name`: a new endpoint is
/// added enabled, a known one gets the new name and keeps its flag.
pub open spec fn absorb_one(
    settings: Map<Seq<char>, (Seq<char>, bool)>,
    id: Seq<char>,
    name: Seq<char>,
) -> Map<Seq<char>, (Seq<char>, bool)> {
    if settings.contains_key(id) {
        settings.insert(id, (name, settings[id].1))
    } else {
        settings.insert(id, (name, true))
    }
}

/// `settings` after seeing the endpoints `devices` in order.
pub open spec fn absorb(
    settings: Map<Seq<char>, (Seq<char>, bool)>,
    devices: Seq<(String, String)>,
) -> Map<Seq<char>, (Seq<char>, bool)>
    decreases devices.len(),
{
    if devices.len() == 0 {
        settings
    } else {
        let last = devices.last();
        absorb_one(absorb(settings, devices.drop_last()), last.0@, last.1@)
    }
}

/// Settings of all endpoints ever seen, by endpoint id.
pub struct TraySettings {
    devices: Vec<(String, DeviceSetting)>,
    model: Ghost<Map<Seq<char>, (Seq<char>, bool)>>,
}

impl TraySettings {
    /// Name and enabled flag of each endpoint, by id.
    pub closed spec fn view(&self) -> Map<Seq<char>, (Seq<char>, bool)> {
        self.model@
    }

    /// `id` is enabled: endpoints without a setting are.
    pub open spec fn enabled_spec(&self, id: Seq<char>) -> bool {
        !self.view().contains_key(id) || self.view()[id].1
    }

    pub closed spec fn wf(&self) -> bool {
        &&& forall|i: int, j: int|
            0 <= i < j < self.devices@.len() ==> #[trigger] self.devices@[i].0@
                != #[trigger] self.devices@[j].0@
        &&& forall|i: int|
            0 <= i < self.devices@.len() ==> #[trigger] self.model@.contains_key(
                self.devices@[i].0@,
            ) && self.model@[self.devices@[i].0@] == (
                self.devices@[i].1.name@,
                self.devices@[i].1.enabled,
            )
        &&& forall|k: Seq<char>|
            #[trigger] self.model@.contains_key(k) ==> exists|i: int|
                0 <= i < self.devices@.len() && #[trigger] self.devices@[i].0@ == k
    }

    /// No settings.
    pub fn new() -> (r: TraySettings)
        ensures
            r.wf(),
            r.view() == Map::<Seq<char>, (Seq<char>, bool)>::empty(),
    {
        TraySettings { devices: Vec::new(), model: Ghost(Map::empty()) }
    }

    /// The stored settings, one entry per endpoint id.
    pub fn entries(&self) -> (r: &Vec<(String, DeviceSetting)>)
        requires
            self.wf(),
        ensures
            forall|i: int|
                0 <= i < r@.len() ==> #[trigger] self.view().contains_key(r@[i].0@)
                    && self.view()[r@[i].0@] == (r@[i].1.name@, r@[i].1.enabled),
            forall|k: Seq<char>|
                #[trigger] self.view().contains_key(k) ==> exists|i: int|
                    0 <= i < r@.len() && #[trigger] r@[i].0@ == k,
    {
        proof {
            assert forall|i: int| 0 <= i < self.devices@.len() implies #[trigger]
                self.view().contains_key(self.devices@[i].0@) && self.view()[self.devices@[i].0@] == (
                self.devices@[i].1.name@,
                self.devices@[i].1.enabled,
            ) by {
                assert(self.model@.contains_key(self.devices@[i].0@));
            }
        }
        &self.devices
    }

    /// Position of `key` among the entries.
    fn find(&self, key: &String) -> (r: Option<usize>)
        requires
            self.wf(),
        ensures
            match r {
                Some(i) => i < self.devices@.len() && self.devices@[i as int].0@ == key@,
                None => !self.view().contains_key(key@),
            },
    {
        let mut i: usize = 0;
        while i < self.devices.len()
            invariant
                self.wf(),
                0 <= i <= self.devices@.len(),
                forall|j: int| 0 <= j < i ==> self.devices@[j].0@ != key@,
            decreases self.devices@.len() - i,
        {
            if self.devices[i].0 == *key {
                return Some(i);
            }
            i = i + 1;
        }
        None
    }

    /// Stores `name` and `enabled` for `key`.
    fn put(&mut self, key: String, name: String, enabled: bool)
        requires
            old(self).wf(),
        ensures
            final(self).wf(),
            final(self).view() == old(self).view().insert(key@, (name@, enabled)),
    {
        let ghost k = key@;
        let ghost v = (name@, enabled);
        match self.find(&key) {
            Some(i) => {
                self.devices.set(i, (key, DeviceSetting { name, enabled }));
                proof {
                    self.model@ = self.model@.insert(k, v);
                    assert forall|a: int| 0 <= a < self.devices@.len() implies #[trigger]
                        self.model@.contains_key(self.devices@[a].0@) && self.model@[self.devices@[a].0@]
                        == (self.devices@[a].1.name@, self.devices@[a].1.enabled) by {
                        if a != i {
                            if a < i {
                                assert(old(self).devices@[a].0@ != old(self).devices@[i as int].0@);
                            } else {
                                assert(old(self).devices@[i as int].0@ != old(self).devices@[a].0@);
                            }
                            assert(old(self).model@.contains_key(old(self).devices@[a].0@));
                        }
                    }
                    assert forall|kk: Seq<char>| #[trigger]
                        self.model@.contains_key(kk) implies exists|j: int|
                        0 <= j < self.devices@.len() && #[trigger] self.devices@[j].0@ == kk by {
                        if kk != k {
                            let j = choose|j: int|
                                0 <= j < old(self).devices@.len() && #[trigger] old(
                                    self,
                                ).devices@[j].0@ == kk;
                            assert(self.devices@[j].0@ == kk);
                        } else {
                            assert(self.devices@[i as int].0@ == kk);
                        }
                    }
                }
            },
            None => {
                self.devices.push((key, DeviceSetting { name, enabled }));
                proof {
                    self.model@ = self.model@.insert(k, v);
                    let n = self.devices@.len() - 1;
                    assert(self.devices@[n].0@ == k);
                    assert forall|kk: Seq<char>| #[trigger]
                        self.model@.contains_key(kk) implies exists|j: int|
                        0 <= j < self.devices@.len() && #[trigger] self.devices@[j].0@ == kk by {
                        if kk != k {
                            let j = choose|j: int|
                                0 <= j < old(self).devices@.len() && #[trigger] old(
                                    self,
                                ).devices@[j].0@ == kk;
                            assert(self.devices@[j].0@ == kk);
                        }
                    }
                    assert forall|a: int| 0 <= a < self.devices@.len() implies #[trigger]
                        self.model@.contains_key(self.devices@[a].0@) && self.model@[self.devices@[a].0@]
                        == (self.devices@[a].1.name@, self.devices@[a].1.enabled) by {
                        if a < n {
                            assert(old(self).model@.contains_key(old(self).devices@[a].0@));
                        }
                    }
                }
            },
        }
    }

    /// `device_id` is enabled; endpoints without a setting are.
    pub fn is_device_enabled(&self, device_id: &str) -> (r: bool)
        requires
            self.wf(),
        ensures
            r == self.enabled_spec(device_id@),
    {
        let key = device_id.to_owned();
        match self.find(&key) {
            Some(i) => {
                proof {
                    assert(self.model@.contains_key(self.devices@[i as int].0@));
                }
                self.devices[i].1.enabled
            },
            None => true,
        }
    }

    /// The stored name of `device_id`, if it has a setting.
    pub fn device_name(&self, device_id: &str) -> (r: Option<String>)
        requires
            self.wf(),
        ensures
            self.view().contains_key(device_id@) ==> (r matches Some(n) && n@ == self.view()[device_id@].0),
            !self.view().contains_key(device_id@) ==> r is None,
    {
        let key = device_id.to_owned();
        match self.find(&key) {
            Some(i) => {
                proof {
                    assert(self.model@.contains_key(self.devices@[i as int].0@));
                }
                Some(self.devices[i].1.name.clone())
            },
            None => None,
        }
    }

    /// Records `device_id`, named `name`, as enabled or not.
    pub fn set_device_enabled(&mut self, device_id: &str, name: &str, enabled: bool)
        requires
            old(self).wf(),
        ensures
            final(self).wf(),
            final(self).view() == old(self).view().insert(device_id@, (name@, enabled)),
    {
        self.put(device_id.to_owned(), name.to_owned(), enabled);
    }

    /// Takes in the endpoints `devices`, as (id, name) pairs: new ones are
    /// added enabled, known ones are renamed.
    pub fn update_from_devices(&mut self, devices: &[(String, String)])
        requires
            old(self).wf(),
        ensures
            final(self).wf(),
            final(self).view() == absorb(old(self).view(), devices@),
    {
        let mut i: usize = 0;
        while i < devices.len()
            invariant
                self.wf(),
                0 <= i <= devices@.len(),
                self.view() == absorb(old(self).view(), devices@.take(i as int)),
            decreases devices@.len() - i,
        {
            let id = &devices[i].0;
            let name = &devices[i].1;
            let key = id.clone();
            let enabled = match self.find(&key) {
                Some(j) => {
                    proof {
                        assert(self.model@.contains_key(self.devices@[j as int].0@));
                    }
                    self.devices[j].1.enabled
                },
                None => true,
            };
            self.put(key, name.clone(), enabled);
            proof {
                assert(devices@.take(i + 1).drop_last() =~= devices@.take(i as int));
            }
            i = i + 1;
        }
        proof {
            assert(devices@.take(devices@.len() as int) =~= devices@);
        }
    }

    /// The ids of the endpoints that are disabled.
    pub fn disabled_device_ids(&self) -> (r: Vec<String>)
        requires
            self.wf(),
        ensures
            forall|i: int|
                0 <= i < r@.len() ==> #[trigger] self.view().contains_key(r@[i]@)
                    && !self.view()[r@[i]@].1,
            forall|k: Seq<char>|
                #[trigger] self.view().contains_key(k) && !self.view()[k].1 ==> exists|i: int|
                    0 <= i < r@.len() && #[trigger] r@[i]@ == k,
    {
        let mut out: Vec<String> = Vec::new();
        let mut i: usize = 0;
        while i < self.devices.len()
            invariant
                self.wf(),
                0 <= i <= self.devices@.len(),
                forall|j: int|
                    0 <= j < out@.len() ==> #[trigger] self.view().contains_key(out@[j]@)
                        && !self.view()[out@[j]@].1,
                forall|j: int|
                    0 <= j < i && !self.devices@[j].1.enabled ==> exists|q: int|
                        0 <= q < out@.len() && #[trigger] out@[q]@ == (#[trigger] self.devices@[j]).0@,
            decreases self.devices@.len() - i,
        {
            let ghost prev = out@;
            if !self.devices[i].1.enabled {
                proof {
                    assert(self.model@.contains_key(self.devices@[i as int].0@));
                }
                out.push(self.devices[i].0.clone());
                proof {
                    assert(out@[out@.len() - 1]@ == self.devices@[i as int].0@);
                }
            }
            proof {
                assert forall|j: int|
                    0 <= j < i + 1 && !self.devices@[j].1.enabled implies exists|q: int|
                    0 <= q < out@.len() && #[trigger] out@[q]@ == (#[trigger] self.devices@[j]).0@ by {
                    if j < i {
                        let q = choose|q: int|
                            0 <= q < prev.len() && #[trigger] prev[q]@ == self.devices@[j].0@;
                        assert(out@[q] == prev[q]);
                    } else {
                        assert(out@[out@.len() - 1]@ == self.devices@[i as int].0@);
                    }
                }
            }
            i = i + 1;
        }
        proof {
            assert forall|k: Seq<char>|
                #[trigger] self.view().contains_key(k) && !self.view()[k].1 implies exists|q: int|
                0 <= q < out@.len() && #[trigger] out@[q]@ == k by {
                let j = choose|j: int| 0 <= j < self.devices@.len() && #[trigger] self.devices@[j].0@ == k;
                assert(self.model@.contains_key(self.devices@[j].0@));
            }
        }
        out
    }

}

} // verus!
