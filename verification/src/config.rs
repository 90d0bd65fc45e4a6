//! The in-memory milestone store: labeled dates with add/update and
//! remove-by-label operations, plus the path helpers for the persisted
//! JSON file.
//!
//! Note the two distinct label-matching policies: `set_day` matches the
//! stored label exactly after trimming the input, while `remove_day`
//! matches case-insensitively after trimming both sides.

use vstd::prelude::*;
use vstd::string::*;
use crate::elapsed::Timestamp;

verus! {

/// A labeled milestone date.
#[derive(Debug, Clone)]
pub struct Day {
    pub label: String,
    pub date: Timestamp,
}

/// The mathematical value of a stored day: its label's characters and
/// its date.
pub ghost struct DayView {
    pub label: Seq<char>,
    pub date: Timestamp,
}

impl View for Day {
    type V = DayView;

    open spec fn view(&self) -> DayView {
        DayView { label: self.label@, date: self.date }
    }
}

/// The views of a sequence of stored days, in order.
pub open spec fn views_of(days: Seq<Day>) -> Seq<DayView> {
    days.map_values(|d: Day| d@)
}

/// The milestone list, preserving insertion order. Labels are not
/// required to be unique by construction; they are only incidentally
/// de-duplicated by the set/remove operations.
#[derive(Debug)]
pub struct Config {
    pub days: Vec<Day>,
}

impl View for Config {
    type V = Seq<DayView>;

    open spec fn view(&self) -> Seq<DayView> {
        views_of(self.days@)
    }
}

/// What `str::trim` returns for the given characters.
pub uninterp spec fn trim_of(s: Seq<char>) -> Seq<char>;

/// What `str::to_lowercase` returns for the given characters.
pub uninterp spec fn lower_of(s: Seq<char>) -> Seq<char>;

/// Relies on str::trim: the string without leading or trailing
/// whitespace, a function of the characters alone.
#[verifier::external_body]
fn trim<'a>(s: &'a str) -> (r: &'a str)
    ensures
        r@ == trim_of(s@),
{
    s.trim()
}

/// Relies on str::to_lowercase: the lowercase equivalent of the string,
/// a function of the characters alone.
#[verifier::external_body]
fn to_lowercase(s: &str) -> (r: String)
    ensures
        r@ == lower_of(s@),
{
    s.to_lowercase()
}

/// The effect of `set_day` with an already-trimmed key: the first entry
/// whose stored label equals the key exactly gets the new date in place;
/// with no such entry a new day is appended.
pub open spec fn spec_set_day(days: Seq<DayView>, key: Seq<char>, date: Timestamp) -> Seq<DayView>
    decreases days.len(),
{
    if days.len() == 0 {
        seq![(DayView { label: key, date: date })]
    } else if days.first().label == key {
        seq![(DayView { label: key, date: date })] + days.drop_first()
    } else {
        seq![days.first()] + spec_set_day(days.drop_first(), key, date)
    }
}

/// Whether `remove_day` with the given (trimmed, lowercased) key keeps a
/// stored day: it survives when its own trimmed, lowercased label
/// differs from the key.
pub open spec fn keeps(d: DayView, key: Seq<char>) -> bool {
    lower_of(trim_of(d.label)) != key
}

/// The effect of `remove_day` with an already-trimmed, lowercased key:
/// every matching entry is removed and the survivors keep their
/// relative order.
pub open spec fn spec_remove_day(days: Seq<DayView>, key: Seq<char>) -> Seq<DayView>
    decreases days.len(),
{
    if days.len() == 0 {
        Seq::empty()
    } else {
        let rest = spec_remove_day(days.drop_last(), key);
        if keeps(days.last(), key) {
            rest.push(days.last())
        } else {
            rest
        }
    }
}

impl Config {
    /// An empty store.
    pub fn new() -> (r: Self)
        ensures
            r@ == Seq::<DayView>::empty(),
    {
        let r = Config { days: Vec::new() };
        proof {
            assert(r@ =~= Seq::<DayView>::empty());
        }
        r
    }

    /// Adds or updates a day. The label is trimmed; if an entry with an
    /// exact trimmed-label match exists, its date is replaced in place,
    /// preserving its position; otherwise a new entry is appended.
    pub fn set_day(&mut self, label: &str, date: Timestamp)
        ensures
            final(self)@ == spec_set_day(old(self)@, trim_of(label@), date),
    {
        let key: String = trim(label).to_owned();
        let n = self.days.len();
        let mut i: usize = 0;
        while i < n
            invariant
                n == self.days.len(),
                i <= n,
                self == old(self),
                key@ == trim_of(label@),
                forall|j: int| 0 <= j < i ==> self.days@[j]@.label != key@,
            decreases n - i,
        {
            if self.days[i].label == key {
                let kept_label = self.days[i].label.clone();
                self.days.set(i, Day { label: kept_label, date });
                proof {
                    lemma_set_day_found(old(self)@, key@, date, i as int);
                    assert(self@ =~= old(self)@.update(
                        i as int,
                        (DayView { label: key@, date: date }),
                    ));
                }
                return;
            }
            i = i + 1;
        }
        self.days.push(Day { label: key, date });
        proof {
            assert(forall|j: int| 0 <= j < old(self)@.len() ==> old(self)@[j].label != trim_of(
                label@,
            ));
            lemma_set_day_fresh(old(self)@, trim_of(label@), date);
            assert(self@ =~= old(self)@.push((DayView { label: trim_of(label@), date: date })));
        }
    }

    /// Removes every day whose trimmed, lowercased label equals the
    /// trimmed, lowercased input, preserving the relative order of the
    /// survivors.
    pub fn remove_day(&mut self, label: &str)
        ensures
            final(self)@ == spec_remove_day(old(self)@, lower_of(trim_of(label@))),
    {
        let key: String = to_lowercase(trim(label));
        let n = self.days.len();
        let mut kept: Vec<Day> = Vec::new();
        let mut i: usize = 0;
        proof {
            assert(views_of(kept@) =~= spec_remove_day(old(self)@.take(0), key@));
        }
        while i < n
            invariant
                n == self.days.len(),
                i <= n,
                self == old(self),
                key@ == lower_of(trim_of(label@)),
                views_of(kept@) == spec_remove_day(old(self)@.take(i as int), key@),
            decreases n - i,
        {
            let entry_key = to_lowercase(trim(self.days[i].label.as_str()));
            let ghost before = kept@;
            if !(entry_key == key) {
                let d = Day { label: self.days[i].label.clone(), date: self.days[i].date };
                kept.push(d);
            }
            i = i + 1;
            proof {
                let vs = old(self)@;
                assert(vs.take(i as int).drop_last() =~= vs.take(i as int - 1));
                assert(vs.take(i as int).last() == vs[i as int - 1]);
                assert(views_of(kept@) =~= spec_remove_day(vs.take(i as int), key@));
            }
        }
        self.days = kept;
        proof {
            assert(old(self)@.take(n as int) =~= old(self)@);
        }
    }
}

impl Default for Config {
    /// An empty store.
    fn default() -> (r: Self)
        ensures
            r@ == Seq::<DayView>::empty(),
    {
        Config::new()
    }
}

/// Updating with a key that matches a stored label updates that entry in
/// place: the first entry whose label equals the key gets the new date,
/// every other entry is unchanged, and the store does not grow.
pub proof fn lemma_set_day_found(days: Seq<DayView>, key: Seq<char>, date: Timestamp, i: int)
    requires
        0 <= i < days.len(),
        days[i].label == key,
        forall|j: int| 0 <= j < i ==> days[j].label != key,
    ensures
        spec_set_day(days, key, date) == days.update(i, (DayView { label: key, date: date })),
    decreases i,
{
    if i == 0 {
        assert(spec_set_day(days, key, date) =~= days.update(
            0,
            (DayView { label: key, date: date }),
        ));
    } else {
        assert(forall|j: int| 0 <= j < i - 1 ==> days.drop_first()[j].label != key);
        lemma_set_day_found(days.drop_first(), key, date, i - 1);
        assert(spec_set_day(days, key, date) =~= days.update(
            i,
            (DayView { label: key, date: date }),
        ));
    }
}

/// Setting a day whose trimmed label matches no stored entry appends a
/// new entry, leaving the prior entries' order and values unchanged.
pub proof fn lemma_set_day_fresh(days: Seq<DayView>, key: Seq<char>, date: Timestamp)
    requires
        forall|j: int| 0 <= j < days.len() ==> days[j].label != key,
    ensures
        spec_set_day(days, key, date) == days.push((DayView { label: key, date: date })),
    decreases days.len(),
{
    if days.len() == 0 {
        assert(spec_set_day(days, key, date) =~= days.push((DayView { label: key, date: date })));
    } else {
        assert(forall|j: int| 0 <= j < days.len() - 1 ==> days.drop_first()[j].label != key);
        lemma_set_day_fresh(days.drop_first(), key, date);
        assert(spec_set_day(days, key, date) =~= days.push((DayView { label: key, date: date })));
    }
}

/// Setting a day on an empty store and then setting the same trimmed
/// label again updates in place without growing the store: exactly one
/// entry remains, holding the second date.
pub proof fn lemma_set_day_update_in_place(key: Seq<char>, d1: Timestamp, d2: Timestamp)
    ensures
        spec_set_day(spec_set_day(Seq::empty(), key, d1), key, d2) == seq![(DayView {
            label: key,
            date: d2,
        })],
{
    let once = spec_set_day(Seq::<DayView>::empty(), key, d1);
    assert(once =~= seq![(DayView { label: key, date: d1 })]);
    assert(spec_set_day(once, key, d2) =~= seq![(DayView { label: key, date: d2 })]);
}

/// Removing a label that matches no stored entry is a no-op: the store
/// is unchanged.
pub proof fn lemma_remove_day_no_match(days: Seq<DayView>, key: Seq<char>)
    requires
        forall|j: int| 0 <= j < days.len() ==> keeps(days[j], key),
    ensures
        spec_remove_day(days, key) == days,
    decreases days.len(),
{
    if days.len() == 0 {
        assert(spec_remove_day(days, key) =~= days);
    } else {
        assert(forall|j: int| 0 <= j < days.len() - 1 ==> keeps(days.drop_last()[j], key));
        lemma_remove_day_no_match(days.drop_last(), key);
        assert(spec_remove_day(days, key) =~= days);
    }
}

/// Removal is complete: no entry whose trimmed, lowercased label equals
/// the key survives `remove_day`, whatever the store held.
pub proof fn lemma_remove_day_removes_all(days: Seq<DayView>, key: Seq<char>)
    ensures
        forall|i: int|
            0 <= i < spec_remove_day(days, key).len() ==> keeps(
                #[trigger] spec_remove_day(days, key)[i],
                key,
            ),
    decreases days.len(),
{
    if days.len() > 0 {
        lemma_remove_day_removes_all(days.drop_last(), key);
        let rest = spec_remove_day(days.drop_last(), key);
        if keeps(days.last(), key) {
            assert(forall|i: int|
                0 <= i < rest.push(days.last()).len() ==> keeps(
                    #[trigger] rest.push(days.last())[i],
                    key,
                ));
        }
    }
}

/// Removing a label that matches exactly one stored entry removes that
/// entry and leaves every differently-labeled entry untouched, in its
/// relative order.
pub proof fn lemma_remove_day_single_match(days: Seq<DayView>, key: Seq<char>, m: int)
    requires
        0 <= m < days.len(),
        !keeps(days[m], key),
        forall|j: int| 0 <= j < days.len() && j != m ==> keeps(days[j], key),
    ensures
        spec_remove_day(days, key) == days.subrange(0, m) + days.subrange(
            m + 1,
            days.len() as int,
        ),
    decreases days.len(),
{
    if m == days.len() - 1 {
        assert(forall|j: int| 0 <= j < days.len() - 1 ==> keeps(days.drop_last()[j], key));
        lemma_remove_day_no_match(days.drop_last(), key);
        assert(spec_remove_day(days, key) =~= days.subrange(0, m) + days.subrange(
            m + 1,
            days.len() as int,
        ));
    } else {
        assert(forall|j: int|
            0 <= j < days.len() - 1 && j != m ==> keeps(days.drop_last()[j], key));
        lemma_remove_day_single_match(days.drop_last(), key, m);
        assert(spec_remove_day(days, key) =~= days.subrange(0, m) + days.subrange(
            m + 1,
            days.len() as int,
        ));
    }
}

/// The config directory under the given home directory.
pub fn config_dir_path(home: &str) -> (r: String)
    ensures
        r@ == home@ + "/.config/achievements"@,
{
    let mut s = home.to_owned();
    s.append("/.config/achievements");
    s
}

/// The config file inside the config directory.
pub fn config_file_path(config_dir: &str) -> (r: String)
    ensures
        r@ == config_dir@ + "/config.json"@,
{
    let mut s = config_dir.to_owned();
    s.append("/config.json");
    s
}

/// One line of the `list` output: the label in single quotes, a colon
/// and a space, then the date text.
pub fn list_line(label: &str, date_text: &str) -> (r: String)
    ensures
        r@ == "'"@ + label@ + "': "@ + date_text@,
{
    let mut s = "'".to_owned();
    s.append(label);
    s.append("': ");
    s.append(date_text);
    s
}

} // verus!
