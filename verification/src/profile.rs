//! Local device profile registry and attached-device identity.
//!
//! Profiles map the stable USB serial of a Kindle to a friendly local name
//! ("Ken's Kindle", "Deb's Kindle"). Serials are stored locally only and
//! masked in logs/UI. With at most one device attached, the first
//! discovered Kindle is the session device.

use vstd::prelude::*;

use crate::external::{io_error_text, json_error_text};
use crate::inventory::opt_view;
use crate::library::copy_opt_string;
use crate::search::{first_index, lemma_first_index, lemma_first_index_none, lemma_first_index_unique};
use crate::text::{chars_of, slice_chars, string_of};
use crate::usb::{UsbKindle, spec_model_name};

verus! {

broadcast use vstd::string::group_string_axioms;

/// A locally-named device profile keyed by stable USB serial.
#[derive(Debug, Clone, PartialEq, Eq)]
pub struct DeviceProfile {
    pub serial: String,
    pub friendly_name: String,
    pub model: Option<String>,
    /// Unix seconds of the last time this device was profiled.
    pub last_seen_unix: Option<u64>,
}

/// The abstract content of a `DeviceProfile`.
pub struct ProfileView {
    pub serial: Seq<char>,
    pub friendly_name: Seq<char>,
    pub model: Option<Seq<char>>,
    pub last_seen_unix: Option<u64>,
}

impl View for DeviceProfile {
    type V = ProfileView;

    open spec fn view(&self) -> ProfileView {
        ProfileView {
            serial: self.serial@,
            friendly_name: self.friendly_name@,
            model: opt_view(self.model),
            last_seen_unix: self.last_seen_unix,
        }
    }
}

/// A store of local device profiles.
#[derive(Debug, Clone, PartialEq, Eq)]
pub struct ProfileStore {
    pub profiles: Vec<DeviceProfile>,
}

impl Default for ProfileStore {
    fn default() -> (res: ProfileStore)
        ensures
            res.profiles@.len() == 0,
    {
        ProfileStore { profiles: Vec::new() }
    }
}

pub open spec fn profiles_view(s: Seq<DeviceProfile>) -> Seq<ProfileView> {
    s.map_values(|p: DeviceProfile| p@)
}

/// Profiles whose serial is `serial`.
pub open spec fn serial_is(serial: Seq<char>) -> spec_fn(ProfileView) -> bool {
    |p: ProfileView| p.serial == serial
}

/// The position of the profile for `serial`: the first with that serial.
pub open spec fn profile_index(profiles: Seq<ProfileView>, serial: Seq<char>) -> Option<int> {
    first_index(profiles, serial_is(serial))
}

/// The profiles after writing `profile` under its serial: the first profile
/// with that serial is replaced, or the profile is appended.
pub open spec fn spec_upsert_profile(profiles: Seq<ProfileView>, profile: ProfileView) -> Seq<ProfileView> {
    match profile_index(profiles, profile.serial) {
        Some(i) => profiles.update(i, profile),
        None => profiles.push(profile),
    }
}

/// The name shown for devices without a profile.
pub open spec fn unknown_name() -> Seq<char> {
    "Unknown Kindle"@
}

/// The friendly name of `serial`, or the unknown-device name.
pub open spec fn spec_name_for(profiles: Seq<ProfileView>, serial: Seq<char>) -> Seq<char> {
    match profile_index(profiles, serial) {
        Some(i) => profiles[i].friendly_name,
        None => unknown_name(),
    }
}

/// The identity of the currently attached Kindle.
#[derive(Debug, Clone)]
pub struct DeviceIdentity {
    /// Stable USB serial (when the device exposes one).
    pub serial: Option<String>,
    /// Friendly model name (e.g. "Kindle Paperwhite (12th generation)").
    pub model: String,
    pub friendly_name: String,
}

/// Errors of profile-store persistence.
#[derive(Debug)]
pub enum ProfileError {
    Io(std::io::Error),
    Json(serde_json::Error),
}

/// The position of the profile for `serial` in `profiles`.
fn position_of_profile(profiles: &Vec<DeviceProfile>, serial: &String) -> (res: Option<usize>)
    ensures
        match res {
            Some(i) => profile_index(profiles_view(profiles@), serial@) == Some(i as int) && i
                < profiles@.len(),
            None => profile_index(profiles_view(profiles@), serial@) is None,
        },
{
    let ghost pv = profiles_view(profiles@);
    let mut i: usize = 0;
    while i < profiles.len()
        invariant
            i <= profiles@.len(),
            pv == profiles_view(profiles@),
            forall|k: int| 0 <= k < i ==> !serial_is(serial@)(#[trigger] pv[k]),
        decreases profiles@.len() - i,
    {
        if profiles[i].serial == *serial {
            proof {
                lemma_first_index_unique(pv, serial_is(serial@), i as int);
            }
            return Some(i);
        }
        i = i + 1;
    }
    proof {
        lemma_first_index_none(pv, serial_is(serial@));
    }
    None
}

impl ProfileStore {
    /// The profile stored for `serial`.
    pub fn lookup(&self, serial: &str) -> (res: Option<&DeviceProfile>)
        ensures
            match profile_index(profiles_view(self.profiles@), serial@) {
                Some(i) => res == Some(&self.profiles@[i]),
                None => res is None,
            },
    {
        let s = serial.to_owned();
        match position_of_profile(&self.profiles, &s) {
            Some(i) => Some(&self.profiles[i]),
            None => None,
        }
    }

    /// Friendly name for a serial, or a default when unprofiled.
    pub fn name_for(&self, serial: &str) -> (res: String)
        ensures
            res@ == spec_name_for(profiles_view(self.profiles@), serial@),
    {
        proof {
            lemma_first_index(profiles_view(self.profiles@), serial_is(serial@));
        }
        match self.lookup(serial) {
            Some(profile) => profile.friendly_name.clone(),
            None => "Unknown Kindle".to_owned(),
        }
    }

    /// Insert or replace the profile for a device.
    pub fn upsert(&mut self, profile: DeviceProfile)
        ensures
            final(self).profiles@ == match profile_index(
                profiles_view(old(self).profiles@),
                profile.serial@,
            ) {
                Some(i) => old(self).profiles@.update(i, profile),
                None => old(self).profiles@.push(profile),
            },
            profiles_view(final(self).profiles@) == spec_upsert_profile(
                profiles_view(old(self).profiles@),
                profile@,
            ),
    {
        let ghost orig = self.profiles@;
        match position_of_profile(&self.profiles, &profile.serial) {
            Some(i) => {
                self.profiles.set(i, profile);
                assert(profiles_view(self.profiles@) =~= profiles_view(orig).update(i as int, profile@));
            },
            None => {
                self.profiles.push(profile);
                assert(profiles_view(self.profiles@) =~= profiles_view(orig).push(profile@));
            },
        }
    }
}

/// Identify the attached Kindle: the first discovered one, named by its
/// profile when its serial has one.
pub fn identify_attached(store: &ProfileStore, kindles: &[UsbKindle]) -> (res: Option<
    DeviceIdentity,
>)
    ensures
        kindles@.len() == 0 ==> res is None,
        kindles@.len() > 0 ==> (res matches Some(identity) && opt_view(identity.serial)
            == opt_view(kindles@[0].serial) && identity.model@ == spec_model_name(
            kindles@[0].product_id,
        ) && identity.friendly_name@ == match kindles@[0].serial {
            Some(serial) => spec_name_for(profiles_view(store.profiles@), serial@),
            None => unknown_name(),
        }),
{
    if kindles.len() == 0 {
        return None;
    }
    let kindle = &kindles[0];
    let serial = copy_opt_string(&kindle.serial);
    let friendly_name = match &kindle.serial {
        Some(serial) => store.name_for(serial.as_str()),
        None => "Unknown Kindle".to_owned(),
    };
    Some(DeviceIdentity { serial, model: kindle.model_name().to_owned(), friendly_name })
}

/// A serial shown in logs and UI: the first and last four characters around
/// `...`; serials of at most eight characters are shown whole.
pub open spec fn spec_masked_serial(serial: Seq<char>) -> Seq<char> {
    if serial.len() <= 8 {
        serial
    } else {
        serial.take(4) + seq!['.', '.', '.'] + serial.skip(serial.len() - 4)
    }
}

/// Mask a serial for display.
pub fn masked_serial(serial: &str) -> (res: String)
    ensures
        res@ == spec_masked_serial(serial@),
{
    let chars = chars_of(serial);
    let n = chars.len();
    if n <= 8 {
        return serial.to_owned();
    }
    let mut out = slice_chars(chars.as_slice(), 0, 4);
    out.push('.');
    out.push('.');
    out.push('.');
    let end = slice_chars(chars.as_slice(), n - 4, n);
    let mut i: usize = 0;
    let ghost start = out@;
    while i < end.len()
        invariant
            i <= end@.len(),
            out@ == start + end@.take(i as int),
        decreases end@.len() - i,
    {
        out.push(end[i]);
        i = i + 1;
        assert(out@ =~= start + end@.take(i as int));
    }
    assert(end@.take(end@.len() as int) =~= end@);
    assert(out@ =~= spec_masked_serial(serial@));
    string_of(out.as_slice())
}

impl ProfileError {
    /// The friendly, user-facing message of the error: a prefix naming the
    /// profile store, then the wrapped error's own text.
    pub fn message(&self) -> (res: String)
        ensures
            *self is Io ==> "profile store I/O error: "@.is_prefix_of(res@),
            *self is Json ==> "profile store JSON error: "@.is_prefix_of(res@),
    {
        match self {
            ProfileError::Io(error) => "profile store I/O error: ".to_owned().concat(
                io_error_text(error).as_str(),
            ),
            ProfileError::Json(error) => "profile store JSON error: ".to_owned().concat(
                json_error_text(error).as_str(),
            ),
        }
    }
}

/// After a profile is written, its serial is named by that profile's
/// friendly name.
pub proof fn law_name_for_after_upsert(profiles: Seq<ProfileView>, profile: ProfileView)
    ensures
        spec_name_for(spec_upsert_profile(profiles, profile), profile.serial) == profile.friendly_name,
{
    let p = serial_is(profile.serial);
    lemma_first_index(profiles, p);
    match profile_index(profiles, profile.serial) {
        Some(i) => {
            let after = profiles.update(i, profile);
            assert forall|k: int| 0 <= k < i implies !p(#[trigger] after[k]) by {
                assert(after[k] == profiles[k]);
            }
            lemma_first_index_unique(after, p, i);
        },
        None => {
            crate::search::lemma_first_index_push_none(profiles, profile, p);
        },
    }
}

} // verus!
