//! Where a camera's recordings are stored.
use vstd::prelude::*;
use crate::decimal::{all_digits, is_digit};

verus! {

/// The directory under which each camera's recordings have a directory.
pub open spec fn storage_base() -> Seq<char> {
    "/var/system/openads/storage/"@
}

/// The directory of the recordings of the camera `id`.
pub open spec fn save_root_text(id: Seq<char>) -> Seq<char> {
    storage_base() + id
}

/// The recording file named `location` in the directory `root`.
pub open spec fn save_target_text(root: Seq<char>, location: Seq<char>) -> Seq<char> {
    root + "/"@ + location + ".avi"@
}

/// A camera's recording directory is the storage base followed by the
/// camera's id, character for character: the id can be read back from the
/// directory, so two cameras never share one.
pub proof fn law_save_root_keeps_id(id: Seq<char>, other: Seq<char>)
    ensures
        save_root_text(id).len() == storage_base().len() + id.len(),
        save_root_text(id).take(storage_base().len() as int) == storage_base(),
        save_root_text(id).skip(storage_base().len() as int) == id,
        save_root_text(id) == save_root_text(other) ==> id == other,
{
    assert(save_root_text(id).take(storage_base().len() as int) =~= storage_base());
    assert(save_root_text(id).skip(storage_base().len() as int) =~= id);
    assert(save_root_text(other).skip(storage_base().len() as int) =~= other);
}

/// A recording file is its directory, `/`, the location as given, and
/// `.avi`: the directory and the location can be read back from it.
pub proof fn law_save_target_keeps_parts(root: Seq<char>, location: Seq<char>)
    ensures
        save_target_text(root, location).take(root.len() as int) == root,
        save_target_text(root, location)[root.len() as int] == '/',
        save_target_text(root, location).subrange((root.len() + 1) as int, (root.len() + 1 + location.len()) as int)
            == location,
        save_target_text(root, location).len() == root.len() + location.len() + 5,
{
    let t = save_target_text(root, location);
    assert(".avi"@.len() == 4) by {
        reveal_strlit(".avi");
    }
    assert("/"@ =~= seq!['/']) by {
        reveal_strlit("/");
    }
    assert(t.take(root.len() as int) =~= root);
    assert(t.subrange((root.len() + 1) as int, (root.len() + 1 + location.len()) as int) =~= location);
}

/// `c` separates the fields of a date: `-` or `:`.
pub open spec fn is_date_separator(c: char) -> bool {
    c == '-' || c == ':'
}

/// `s` without its date separators.
pub open spec fn strip_date_separators(s: Seq<char>) -> Seq<char>
    decreases s.len(),
{
    if s.len() == 0 {
        Seq::empty()
    } else if is_date_separator(s.last()) {
        strip_date_separators(s.drop_last())
    } else {
        strip_date_separators(s.drop_last()).push(s.last())
    }
}

/// No character of `s` is a date separator.
pub open spec fn has_no_separators(s: Seq<char>) -> bool {
    forall|i: int| 0 <= i < s.len() ==> !is_date_separator(#[trigger] s[i])
}

/// The directory of the recordings of the camera `id`.
pub fn save_root_path(id: &String) -> (r: String)
    ensures
        r@ == save_root_text(id@),
{
    let mut r: String = String::from_str("/var/system/openads/storage/");
    r.append(id.as_str());
    r
}

/// The recording file named `save_location` in the directory `save_root`.
pub fn save_target_path(save_root: &String, save_location: &String) -> (r: String)
    ensures
        r@ == save_target_text(save_root@, save_location@),
{
    let mut r: String = save_root.clone();
    r.append("/");
    r.append(save_location.as_str());
    r.append(".avi");
    r
}

/// `s` with every `-` and `:` taken out.
pub fn strip_separators(s: &str) -> (r: String)
    ensures
        r@ == strip_date_separators(s@),
{
    let n: usize = s.unicode_len();
    let mut r: String = String::new();
    let mut i: usize = 0;
    while i < n
        invariant
            n == s@.len(),
            i <= n,
            r@ == strip_date_separators(s@.take(i as int)),
        decreases n - i,
    {
        let c: char = s.get_char(i);
        let ghost prefix: Seq<char> = s@.take(i + 1);
        assert(prefix.drop_last() =~= s@.take(i as int));
        assert(prefix.last() == c);
        if c != '-' && c != ':' {
            let piece: &str = s.substring_char(i, i + 1);
            assert(piece@ =~= seq![c]);
            r.append(piece);
        }
        i = i + 1;
    }
    assert(s@.take(n as int) =~= s@);
    r
}

/// Stripping the date separators leaves none.
pub proof fn lemma_strip_leaves_no_separators(s: Seq<char>)
    ensures
        has_no_separators(strip_date_separators(s)),
    decreases s.len(),
{
    if s.len() > 0 {
        lemma_strip_leaves_no_separators(s.drop_last());
        let p = strip_date_separators(s.drop_last());
        if !is_date_separator(s.last()) {
            let q = p.push(s.last());
            assert forall|i: int| 0 <= i < q.len() implies !is_date_separator(#[trigger] q[i]) by {
                if i < p.len() {
                    assert(q[i] == p[i]);
                }
            }
        }
    }
}

/// Text without date separators is left as it is by stripping them, so
/// stripping twice gives what stripping once gives.
pub proof fn lemma_strip_idempotent(s: Seq<char>)
    ensures
        strip_date_separators(strip_date_separators(s)) == strip_date_separators(s),
{
    lemma_strip_leaves_no_separators(s);
    lemma_strip_of_clean(strip_date_separators(s));
}

proof fn lemma_strip_of_clean(s: Seq<char>)
    requires
        has_no_separators(s),
    ensures
        strip_date_separators(s) == s,
    decreases s.len(),
{
    if s.len() > 0 {
        let p = s.drop_last();
        assert(has_no_separators(p)) by {
            assert forall|i: int| 0 <= i < p.len() implies !is_date_separator(#[trigger] p[i]) by {
                assert(p[i] == s[i]);
            }
        }
        lemma_strip_of_clean(p);
        assert(!is_date_separator(s[s.len() - 1]));
        assert(p.push(s.last()) =~= s);
    }
}

/// `c` is a `+` or `-` sign.
pub open spec fn is_sign(c: char) -> bool {
    c == '+' || c == '-'
}

/// `s` is a year as chrono writes it: four digits, or a sign followed by
/// four or more digits.
pub open spec fn is_year_text(s: Seq<char>) -> bool {
    ||| s.len() == 4 && all_digits(s)
    ||| s.len() >= 5 && is_sign(s[0]) && all_digits(s.drop_first())
}

/// `s` is a calendar date as chrono writes it: year, `-`, two-digit month,
/// `-`, two-digit day.
pub open spec fn is_naive_date_text(s: Seq<char>) -> bool {
    let n = s.len() as int;
    &&& n >= 10
    &&& is_year_text(s.take(n - 6))
    &&& s[n - 6] == '-'
    &&& is_digit(s[n - 5])
    &&& is_digit(s[n - 4])
    &&& s[n - 3] == '-'
    &&& is_digit(s[n - 2])
    &&& is_digit(s[n - 1])
}

/// `s` is a UTC offset as chrono writes it: a sign, two-digit hours, `:`,
/// two-digit minutes, and `:` with two-digit seconds where they are not 0.
pub open spec fn is_offset_text(s: Seq<char>) -> bool {
    &&& s.len() == 6 || s.len() == 9
    &&& is_sign(s[0])
    &&& is_digit(s[1])
    &&& is_digit(s[2])
    &&& s[3] == ':'
    &&& is_digit(s[4])
    &&& is_digit(s[5])
    &&& s.len() == 9 ==> s[6] == ':' && is_digit(s[7]) && is_digit(s[8])
}

/// `s` is a date in a time zone as chrono's `Date` writes it: the calendar
/// date followed by the zone's UTC offset, as in `2022-06-14+02:00`.
pub open spec fn is_local_date_text(s: Seq<char>) -> bool {
    exists|k: int|
        0 <= k <= s.len() && #[trigger] is_naive_date_text(s.take(k)) && is_offset_text(s.skip(k))
}

/// Calls `chrono::Local::now().date()` and writes the date with
/// `to_string`. chrono writes a `Date` as its calendar date (`%Y-%m-%d`,
/// with a sign before years outside 0..=9999) followed by its offset
/// (`+HH:MM`, or `+HH:MM:SS` where the seconds are not 0). Which date and
/// offset come back depends on the clock and the local time zone, and is
/// left unsaid.
#[verifier::external_body]
#[allow(deprecated)]
fn local_date_text() -> (r: String)
    ensures
        is_local_date_text(r@),
{
    chrono::Local::now().date().to_string()
}

/// The saved state of one camera, as the save registry (`registry.toml`)
/// records it.
pub struct SaveRecord {
    pub id: String,
    pub save_counter: usize,
    pub current_save: String,
    pub save_root: String,
}

/// The record the save registry holds for the camera `id`: the first one
/// with that id, if any.
pub open spec fn recorded_for(registry: Seq<SaveRecord>, id: Seq<char>) -> Option<SaveRecord>
    decreases registry.len(),
{
    if registry.len() == 0 {
        None
    } else if registry[0].id@ == id {
        Some(registry[0])
    } else {
        recorded_for(registry.drop_first(), id)
    }
}

/// `loc` is the save location of the camera `id` under the save registry
/// `registry`: the recorded state where there is one, and otherwise a
/// location that has saved nothing yet.
pub open spec fn restored_from(registry: Seq<SaveRecord>, id: Seq<char>, loc: SaveLocation) -> bool {
    match recorded_for(registry, id) {
        Some(rec) => {
            &&& loc.save_counter == rec.save_counter
            &&& loc.current_save@ == rec.current_save@
            &&& loc.save_root@ == rec.save_root@
        },
        None => {
            &&& loc.save_counter == 0
            &&& loc.current_save@ == Seq::<char>::empty()
            &&& loc.save_root@ == Seq::<char>::empty()
        },
    }
}

/// Where a camera saves: a counter, the current target and its directory.
#[derive(Clone)]
pub struct SaveLocation {
    pub save_counter: usize,
    pub current_save: String,
    pub save_root: String,
}

impl SaveLocation {
    /// The save location of the camera `id`, from the state that the save
    /// registry records for it; a camera the registry does not list has
    /// saved nothing yet.
    pub fn new(id: &String, registry: &Vec<SaveRecord>) -> (r: Self)
        ensures
            restored_from(registry@, id@, r),
    {
        let mut i: usize = 0;
        assert(registry@.skip(0) =~= registry@);
        while i < registry.len()
            invariant
                i <= registry@.len(),
                recorded_for(registry@, id@) == recorded_for(registry@.skip(i as int), id@),
            decreases registry@.len() - i,
        {
            let ghost rest: Seq<SaveRecord> = registry@.skip(i as int);
            assert(rest[0] == registry@[i as int]);
            assert(rest.drop_first() =~= registry@.skip(i + 1));
            let rec: &SaveRecord = &registry[i];
            if rec.id == *id {
                return Self {
                    save_counter: rec.save_counter,
                    current_save: rec.current_save.clone(),
                    save_root: rec.save_root.clone(),
                };
            }
            i = i + 1;
        }
        Self { save_counter: 0, current_save: String::new(), save_root: String::new() }
    }

    /// The save target for the date text `local_date` (the clock's date as
    /// chrono writes it) after `last_saved`: the date without its `-` and
    /// `:`, which is `last_saved` itself where the two agree.
    pub fn last_saved_target(local_date: &String, last_saved: String) -> (r: String)
        ensures
            r@ == strip_date_separators(local_date@),
    {
        let local: String = strip_separators(local_date.as_str());
        if local == last_saved {
            return last_saved;
        }
        local
    }

    /// The save target for today: the local date, as chrono writes it,
    /// without its `-` and `:`, so that one file holds one day.
    pub fn update_last_saved(last_saved: String) -> (r: String)
        ensures
            exists|d: Seq<char>| #[trigger] is_local_date_text(d) && r@ == strip_date_separators(d),
            has_no_separators(r@),
    {
        let local_date: String = local_date_text();
        let r: String = Self::last_saved_target(&local_date, last_saved);
        proof {
            lemma_strip_leaves_no_separators(local_date@);
            assert(is_local_date_text(local_date@) && r@ == strip_date_separators(local_date@));
        }
        r
    }
}

/// The hours after which a camera's store starts over.
pub open spec fn reset_hours() -> usize {
    24
}

/// The bytes of storage a camera needs: 256 GiB.
pub open spec fn spec_required_storage_size() -> u64 {
    274877906944
}

/// The store of one camera: where it saves and the frames not yet saved.
#[derive(Clone)]
pub struct Storage {
    pub save_location: SaveLocation,
    pub device_name: String,
    pub img_buffer: Vec<Vec<u8>>,
    pub reset_after: usize,
}

impl Storage {
    /// A store for the camera `camera_id` named `device_name`, saving where
    /// the save registry says the camera saves, with no frame pending.
    pub fn new(
        camera_id: String,
        device_name: String,
        vendor_id: String,
        product_id: String,
        registry: &Vec<SaveRecord>,
    ) -> (r: Self)
        ensures
            restored_from(registry@, camera_id@, r.save_location),
            r.device_name == device_name,
            r.img_buffer@ == Seq::<Vec<u8>>::empty(),
            r.reset_after == reset_hours(),
    {
        let save_location: SaveLocation = SaveLocation::new(&camera_id, registry);
        let img_buffer: Vec<Vec<u8>> = Vec::new();
        let _storage_capacity: u64 = Self::required_storage_size();
        Self { save_location, device_name, img_buffer, reset_after: 24 }
    }

    /// The bytes of storage a camera needs: 256 GiB.
    pub fn required_storage_size() -> (r: u64)
        ensures
            r == spec_required_storage_size(),
    {
        256 * 1024 * 1024 * 1024
    }
}

} // verus!
