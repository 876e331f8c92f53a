//! One engine per vault file: the register of the vaults a process has open.
//!
//! Two engines on one file are two memories of it racing the same mirrors, and the staler one
//! destroys what the other wrote. The register keeps every open vault's place and file name with the
//! engine that serves it, so that a second opening is handed the engine that is already there,
//! however it spells the directory, and a vault of the same name in another directory is not. An
//! engine that all its holders have dropped leaves the register, and its vault is opened afresh.

use crate::paths;
use crate::paths::vault_path_name;
use crate::storage::{App, FlatStorage};
use crate::text::same_text;
use vstd::prelude::*;

verus! {

/// A directory as the host resolves it: one directory is one place, however it is spelled, and two
/// directories are two.
pub struct Place {
    pub path: String,
}

impl View for Place {
    type V = Seq<char>;

    open spec fn view(&self) -> Seq<char> {
        self.path@
    }
}

/// An open vault: its place, its file name there, and the number of the engine that serves it.
pub struct Entry {
    pub place: Place,
    pub filename: String,
    pub engine: u64,
}

impl View for Entry {
    type V = (Seq<char>, Seq<char>, u64);

    open spec fn view(&self) -> (Seq<char>, Seq<char>, u64) {
        (self.place@, self.filename@, self.engine)
    }
}

/// The open vaults.
pub struct Registry {
    entries: Vec<Entry>,
}

impl View for Registry {
    type V = Seq<(Seq<char>, Seq<char>, u64)>;

    closed spec fn view(&self) -> Seq<(Seq<char>, Seq<char>, u64)> {
        self.entries@.map_values(|e: Entry| e@)
    }
}

/// Whether `entry` is the file `filename` at `place`.
pub open spec fn is_file(
    entry: (Seq<char>, Seq<char>, u64),
    place: Seq<char>,
    filename: Seq<char>,
) -> bool {
    entry.0 == place && entry.1 == filename
}

/// No file, that is, no name at one place, occurs twice.
pub open spec fn one_engine_per_file(entries: Seq<(Seq<char>, Seq<char>, u64)>) -> bool {
    forall|i: int, j: int|
        #![trigger entries[i], entries[j]]
        0 <= i < j < entries.len() ==> !is_file(entries[i], entries[j].0, entries[j].1)
}

/// No engine serves two files.
pub open spec fn one_file_per_engine(entries: Seq<(Seq<char>, Seq<char>, u64)>) -> bool {
    forall|i: int, j: int|
        #![trigger entries[i], entries[j]]
        0 <= i < j < entries.len() ==> entries[i].2 != entries[j].2
}

/// Whether `engine` serves no file.
pub open spec fn unused(entries: Seq<(Seq<char>, Seq<char>, u64)>, engine: u64) -> bool {
    forall|i: int| 0 <= i < entries.len() ==> (#[trigger] entries[i]).2 != engine
}

/// The engine on the file `filename` at `place`, if there is one.
pub open spec fn engine_of(
    entries: Seq<(Seq<char>, Seq<char>, u64)>,
    place: Seq<char>,
    filename: Seq<char>,
) -> Option<u64>
    decreases entries.len(),
{
    if entries.len() == 0 {
        None
    } else if is_file(entries.last(), place, filename) {
        Some(entries.last().2)
    } else {
        engine_of(entries.drop_last(), place, filename)
    }
}

/// The entries whose engine is among `live`, in order.
pub open spec fn live_entries(entries: Seq<(Seq<char>, Seq<char>, u64)>, live: Seq<u64>) -> Seq<
    (Seq<char>, Seq<char>, u64),
>
    decreases entries.len(),
{
    if entries.len() == 0 {
        Seq::empty()
    } else if live.contains(entries.last().2) {
        live_entries(entries.drop_last(), live).push(entries.last())
    } else {
        live_entries(entries.drop_last(), live)
    }
}

/// What a shared opening comes to.
pub enum SharedOpen {
    /// This engine already serves the vault.
    Live { engine: u64 },
    /// Nobody does: open the vault and register it under this place and name, before anyone else
    /// asks.
    Open { place: Place, filename: String },
}

/// Whether `live` holds `engine`.
fn holds(live: &Vec<u64>, engine: u64) -> (found: bool)
    ensures
        found == live@.contains(engine),
{
    for i in 0..live.len()
        invariant
            forall|j: int| 0 <= j < i ==> live@[j] != engine,
    {
        if live[i] == engine {
            return true;
        }
    }
    false
}

impl Registry {
    /// A register of no vaults.
    pub fn new() -> (registry: Registry)
        ensures
            registry@ == Seq::<(Seq<char>, Seq<char>, u64)>::empty(),
            one_engine_per_file(registry@),
            one_file_per_engine(registry@),
    {
        let registry = Registry { entries: Vec::new() };
        assert(registry@ == Seq::<(Seq<char>, Seq<char>, u64)>::empty());
        registry
    }

    /// Drops the vaults whose engine is not among `live`.
    pub fn drop_dead(&mut self, live: &Vec<u64>)
        ensures
            final(self)@ == live_entries(old(self)@, live@),
            final(self)@ == old(self)@.filter(
                |e: (Seq<char>, Seq<char>, u64)| live@.contains(e.2),
            ),
            one_engine_per_file(old(self)@) ==> one_engine_per_file(final(self)@),
            one_file_per_engine(old(self)@) ==> one_file_per_engine(final(self)@),
    {
        let ghost before = self@;
        let mut entries: Vec<Entry> = Vec::new();
        entries.append(&mut self.entries);
        let ghost all = entries@;
        let mut kept: Vec<Entry> = Vec::new();
        for entry in it: entries
            invariant
                it.seq() == all,
                before == all.map_values(|e: Entry| e@),
                kept@.map_values(|e: Entry| e@) == live_entries(
                    before.take(it.index() as int),
                    live@,
                ),
        {
            let ghost seen = before.take(it.index() as int);
            let ghost next = before.take(it.index() as int + 1);
            assert(next.drop_last() == seen);
            assert(next.last() == entry@);
            let ghost so_far = kept@;
            if holds(live, entry.engine) {
                kept.push(entry);
                assert(kept@.map_values(|e: Entry| e@) == so_far.map_values(|e: Entry| e@).push(
                    entry@,
                ));
            }
        }
        assert(before.take(before.len() as int) == before);
        self.entries = kept;
        proof {
            live_entries_stay_distinct(before, live@);
            live_entries_are_the_live_ones(
                before,
                live@,
                |e: (Seq<char>, Seq<char>, u64)| live@.contains(e.2),
            );
        }
    }

    /// The engine on the file `filename` at `place`, if there is one.
    pub fn engine_on(&self, place: &Place, filename: &str) -> (engine: Option<u64>)
        ensures
            engine == engine_of(self@, place@, filename@),
            match engine {
                Some(number) => self@.contains((place@, filename@, number)),
                None => forall|i: int|
                    0 <= i < self@.len() ==> (#[trigger] self@[i]).0 != place@ || self@[i].1
                        != filename@,
            },
    {
        let mut i: usize = self.entries.len();
        assert(self@.take(self@.len() as int) == self@);
        while i > 0
            invariant
                i <= self.entries@.len(),
                self@ == self.entries@.map_values(|e: Entry| e@),
                engine_of(self@, place@, filename@) == engine_of(
                    self@.take(i as int),
                    place@,
                    filename@,
                ),
            decreases i,
        {
            let ghost seen = self@.take(i as int);
            i = i - 1;
            assert(seen.drop_last() == self@.take(i as int));
            assert(seen.last() == self.entries@[i as int]@);
            if same_text(self.entries[i].place.path.as_str(), place.path.as_str()) && same_text(
                self.entries[i].filename.as_str(),
                filename,
            ) {
                proof {
                    let at = served_files_are_present(self@, place@, filename@);
                }
                return Some(self.entries[i].engine);
            }
        }
        proof {
            unserved_files_are_absent(self@, place@, filename@);
        }
        None
    }

    /// Registers the engine that was just opened on a file nobody served.
    pub fn register(&mut self, place: Place, filename: String, engine: u64)
        requires
            engine_of(old(self)@, place@, filename@) is None,
        ensures
            final(self)@ == old(self)@.push((place@, filename@, engine)),
            one_engine_per_file(old(self)@) ==> one_engine_per_file(final(self)@),
            one_file_per_engine(old(self)@) && unused(old(self)@, engine) ==> one_file_per_engine(
                final(self)@,
            ),
    {
        let ghost before = self@;
        proof {
            unserved_files_are_absent(before, place@, filename@);
        }
        self.entries.push(Entry { place, filename, engine });
        assert(self@ == before.push((place@, filename@, engine)));
    }
}

impl FlatStorage {
    /// Opens a vault as the one engine of this process on its file: the engine already there, if
    /// `live`, the engines still held by someone, has it; otherwise word that it is to be opened.
    /// `place` is where `app`'s primary directory lies on this host. The register must stay locked
    /// until the opened engine is registered, so that whoever asks meanwhile waits and gets that
    /// engine.
    pub fn open_shared(
        registry: &mut Registry,
        app: App<'_>,
        vault_seed: &[u8; 32],
        secret: &[u8; 32],
        place: &Place,
        live: &Vec<u64>,
    ) -> (opening: SharedOpen)
        ensures
            final(registry)@ == live_entries(old(registry)@, live@),
            one_engine_per_file(old(registry)@) ==> one_engine_per_file(final(registry)@),
            one_file_per_engine(old(registry)@) ==> one_file_per_engine(final(registry)@),
            match opening {
                SharedOpen::Live { engine } => engine_of(
                    live_entries(old(registry)@, live@),
                    place@,
                    paths::vault_name(app.id@, vault_seed@, secret@),
                ) == Some(engine),
                SharedOpen::Open { place: at, filename } => {
                    &&& at@ == place@
                    &&& filename@ == paths::vault_name(app.id@, vault_seed@, secret@)
                    &&& engine_of(live_entries(old(registry)@, live@), at@, filename@) is None
                },
            },
            match opening {
                SharedOpen::Live { engine } => {
                    &&& live@.contains(engine)
                    &&& old(registry)@.contains(
                        (place@, paths::vault_name(app.id@, vault_seed@, secret@), engine),
                    )
                },
                SharedOpen::Open { .. } => forall|engine: u64|
                    live@.contains(engine) ==> !#[trigger] old(registry)@.contains(
                        (place@, paths::vault_name(app.id@, vault_seed@, secret@), engine),
                    ),
            },
    {
        let filename = vault_path_name(app.id, vault_seed, secret);
        let ghost before = registry@;
        registry.drop_dead(live);
        proof {
            live_entries_were_there(before, live@);
            let kept = live_entries(before, live@);
            if engine_of(kept, place@, filename@) is Some {
                let k = served_files_are_present(kept, place@, filename@);
                assert(before.contains(kept[k]));
            } else {
                unserved_files_are_absent(kept, place@, filename@);
                assert forall|engine: u64| live@.contains(engine) implies !#[trigger] before.contains(
                    (place@, filename@, engine),
                ) by {
                    if before.contains((place@, filename@, engine)) {
                        live_entries_keep(before, live@, (place@, filename@, engine));
                        let k = choose|k: int|
                            0 <= k < kept.len() && kept[k] == (place@, filename@, engine);
                        assert(is_file(kept[k], place@, filename@));
                    }
                }
            }
        }
        match registry.engine_on(place, filename.as_str()) {
            Some(engine) => SharedOpen::Live { engine },
            None => SharedOpen::Open { place: Place { path: place.path.clone() }, filename },
        }
    }
}

/// Every entry kept was there before.
proof fn live_entries_were_there(entries: Seq<(Seq<char>, Seq<char>, u64)>, live: Seq<u64>)
    ensures
        forall|i: int|
            0 <= i < live_entries(entries, live).len() ==> entries.contains(
                #[trigger] live_entries(entries, live)[i],
            ) && live.contains(live_entries(entries, live)[i].2),
    decreases entries.len(),
{
    if entries.len() > 0 {
        let rest = entries.drop_last();
        live_entries_were_there(rest, live);
        assert forall|i: int| 0 <= i < live_entries(entries, live).len() implies entries.contains(
            #[trigger] live_entries(entries, live)[i],
        ) && live.contains(live_entries(entries, live)[i].2) by {
            let kept = live_entries(rest, live);
            if i < kept.len() {
                assert(rest.contains(kept[i]));
                let k = choose|k: int| 0 <= k < rest.len() && rest[k] == kept[i];
                assert(entries[k] == kept[i]);
            } else {
                assert(entries[entries.len() - 1] == entries.last());
            }
        }
    }
}

/// An entry whose engine is live is kept.
proof fn live_entries_keep(
    entries: Seq<(Seq<char>, Seq<char>, u64)>,
    live: Seq<u64>,
    entry: (Seq<char>, Seq<char>, u64),
)
    requires
        entries.contains(entry),
        live.contains(entry.2),
    ensures
        live_entries(entries, live).contains(entry),
    decreases entries.len(),
{
    let k = choose|k: int| 0 <= k < entries.len() && entries[k] == entry;
    let rest = entries.drop_last();
    let kept = live_entries(rest, live);
    if k == entries.len() - 1 {
        assert(live_entries(entries, live)[kept.len() as int] == entry);
    } else {
        assert(rest[k] == entry);
        live_entries_keep(rest, live, entry);
        let j = choose|j: int| 0 <= j < kept.len() && kept[j] == entry;
        assert(live_entries(entries, live)[j] == entry);
    }
}

/// Dropping dead vaults keeps files distinct, and engines.
proof fn live_entries_stay_distinct(entries: Seq<(Seq<char>, Seq<char>, u64)>, live: Seq<u64>)
    ensures
        one_engine_per_file(entries) ==> one_engine_per_file(live_entries(entries, live)),
        one_file_per_engine(entries) ==> one_file_per_engine(live_entries(entries, live)),
    decreases entries.len(),
{
    if entries.len() > 0 {
        let rest = entries.drop_last();
        let kept = live_entries(rest, live);
        live_entries_stay_distinct(rest, live);
        live_entries_were_there(rest, live);
        assert(one_engine_per_file(entries) ==> one_engine_per_file(rest));
        assert(one_file_per_engine(entries) ==> one_file_per_engine(rest));
        assert forall|i: int| 0 <= i < kept.len() implies {
            &&& one_engine_per_file(entries) ==> !is_file(
                #[trigger] kept[i],
                entries.last().0,
                entries.last().1,
            )
            &&& one_file_per_engine(entries) ==> kept[i].2 != entries.last().2
        } by {
            assert(rest.contains(kept[i]));
            let k = choose|k: int| 0 <= k < rest.len() && rest[k] == kept[i];
            assert(entries[k] == kept[i]);
            assert(entries[entries.len() - 1] == entries.last());
        }
    }
}

/// A file that no engine serves is not in the register.
proof fn unserved_files_are_absent(
    entries: Seq<(Seq<char>, Seq<char>, u64)>,
    place: Seq<char>,
    filename: Seq<char>,
)
    requires
        engine_of(entries, place, filename) is None,
    ensures
        forall|i: int| 0 <= i < entries.len() ==> !is_file(#[trigger] entries[i], place, filename),
    decreases entries.len(),
{
    if entries.len() > 0 {
        unserved_files_are_absent(entries.drop_last(), place, filename);
        assert forall|i: int| 0 <= i < entries.len() implies !is_file(
            #[trigger] entries[i],
            place,
            filename,
        ) by {
            if i < entries.len() - 1 {
                assert(entries.drop_last()[i] == entries[i]);
            }
        }
    }
}

/// A file that is not in the register is served by no engine.
proof fn absent_files_are_unserved(
    entries: Seq<(Seq<char>, Seq<char>, u64)>,
    place: Seq<char>,
    filename: Seq<char>,
)
    requires
        forall|i: int| 0 <= i < entries.len() ==> !is_file(#[trigger] entries[i], place, filename),
    ensures
        engine_of(entries, place, filename) is None,
    decreases entries.len(),
{
    if entries.len() > 0 {
        assert(!is_file(entries[entries.len() - 1], place, filename));
        let rest = entries.drop_last();
        assert forall|i: int| 0 <= i < rest.len() implies !is_file(
            #[trigger] rest[i],
            place,
            filename,
        ) by {
            assert(entries[i] == rest[i]);
        }
        absent_files_are_unserved(rest, place, filename);
    }
}

/// An engine that serves a file has an entry that says so.
proof fn served_files_are_present(
    entries: Seq<(Seq<char>, Seq<char>, u64)>,
    place: Seq<char>,
    filename: Seq<char>,
) -> (at: int)
    requires
        engine_of(entries, place, filename) is Some,
    ensures
        0 <= at < entries.len(),
        entries[at] == (place, filename, engine_of(entries, place, filename).unwrap()),
    decreases entries.len(),
{
    if is_file(entries.last(), place, filename) {
        entries.len() - 1
    } else {
        served_files_are_present(entries.drop_last(), place, filename)
    }
}

/// Every opening of a vault whose engine is still held gets that engine; a vault whose engine is
/// gone is opened afresh.
pub proof fn a_live_engine_is_shared(
    entries: Seq<(Seq<char>, Seq<char>, u64)>,
    place: Seq<char>,
    filename: Seq<char>,
    live: Seq<u64>,
)
    requires
        one_engine_per_file(entries),
    ensures
        engine_of(live_entries(entries, live), place, filename) == (match engine_of(
            entries,
            place,
            filename,
        ) {
            Some(engine) => if live.contains(engine) {
                Some(engine)
            } else {
                None
            },
            None => None,
        }),
    decreases entries.len(),
{
    if entries.len() > 0 {
        let rest = entries.drop_last();
        let kept = live_entries(rest, live);
        assert(one_engine_per_file(rest));
        a_live_engine_is_shared(rest, place, filename, live);
        if live.contains(entries.last().2) {
            assert(kept.push(entries.last()).drop_last() == kept);
        } else if is_file(entries.last(), place, filename) {
            assert forall|i: int| 0 <= i < rest.len() implies !is_file(
                #[trigger] rest[i],
                place,
                filename,
            ) by {
                assert(entries[i] == rest[i]);
                assert(entries[entries.len() - 1] == entries.last());
            }
            absent_files_are_unserved(rest, place, filename);
        }
    }
}

/// The live entries are exactly those whose engine is live, in order.
pub proof fn live_entries_are_the_live_ones(
    entries: Seq<(Seq<char>, Seq<char>, u64)>,
    live: Seq<u64>,
    wanted: spec_fn((Seq<char>, Seq<char>, u64)) -> bool,
)
    requires
        forall|e: (Seq<char>, Seq<char>, u64)| #[trigger] wanted(e) <==> live.contains(e.2),
    ensures
        live_entries(entries, live) == entries.filter(wanted),
    decreases entries.len(),
{
    reveal(Seq::filter);
    if entries.len() > 0 {
        live_entries_are_the_live_ones(entries.drop_last(), live, wanted);
    }
}

/// An engine is found for a file exactly if it is registered for that place and that name.
pub proof fn engines_are_found_by_place_and_name(
    entries: Seq<(Seq<char>, Seq<char>, u64)>,
    place: Seq<char>,
    filename: Seq<char>,
    engine: u64,
)
    requires
        forall|i: int, j: int|
            #![trigger entries[i], entries[j]]
            0 <= i < j < entries.len() ==> entries[i].0 != entries[j].0 || entries[i].1
                != entries[j].1,
    ensures
        engine_of(entries, place, filename) == Some(engine) <==> entries.contains(
            (place, filename, engine),
        ),
{
    if engine_of(entries, place, filename) is Some {
        let at = served_files_are_present(entries, place, filename);
        if entries.contains((place, filename, engine)) {
            let k = choose|k: int|
                0 <= k < entries.len() && entries[k] == (place, filename, engine);
            assert(k == at);
        }
    } else {
        unserved_files_are_absent(entries, place, filename);
        if entries.contains((place, filename, engine)) {
            let k = choose|k: int|
                0 <= k < entries.len() && entries[k] == (place, filename, engine);
            assert(is_file(entries[k], place, filename));
        }
    }
}

/// The register's two promises are what they are called: of two entries, neither the file nor the
/// engine is the same.
pub proof fn the_promises_of_the_register(entries: Seq<(Seq<char>, Seq<char>, u64)>, i: int, j: int)
    requires
        0 <= i < entries.len(),
        0 <= j < entries.len(),
        i != j,
    ensures
        one_engine_per_file(entries) ==> entries[i].0 != entries[j].0 || entries[i].1
            != entries[j].1,
        one_file_per_engine(entries) ==> entries[i].2 != entries[j].2,
{
}

/// A registered engine serves its file from then on, and no other file changes hands: neither
/// another name at that place, nor the same name at another.
pub proof fn a_registered_engine_serves(
    entries: Seq<(Seq<char>, Seq<char>, u64)>,
    place: Seq<char>,
    filename: Seq<char>,
    engine: u64,
    other_place: Seq<char>,
    other: Seq<char>,
)
    ensures
        engine_of(entries.push((place, filename, engine)), place, filename) == Some(engine),
        other_place != place || other != filename ==> engine_of(
            entries.push((place, filename, engine)),
            other_place,
            other,
        ) == engine_of(entries, other_place, other),
{
    assert(entries.push((place, filename, engine)).drop_last() == entries);
}

/// An engine is handed out for one file only: the live engine of one place is never the answer for
/// another place, nor for another name.
pub proof fn engines_stay_with_their_file(
    entries: Seq<(Seq<char>, Seq<char>, u64)>,
    live: Seq<u64>,
    place_a: Seq<char>,
    name_a: Seq<char>,
    place_b: Seq<char>,
    name_b: Seq<char>,
)
    requires
        one_file_per_engine(entries),
        place_a != place_b || name_a != name_b,
        engine_of(live_entries(entries, live), place_a, name_a) is Some,
    ensures
        engine_of(live_entries(entries, live), place_a, name_a) != engine_of(
            live_entries(entries, live),
            place_b,
            name_b,
        ),
{
    let kept = live_entries(entries, live);
    live_entries_stay_distinct(entries, live);
    let a = served_files_are_present(kept, place_a, name_a);
    if engine_of(kept, place_b, name_b) is Some {
        let b = served_files_are_present(kept, place_b, name_b);
        assert(kept[a] != kept[b]);
        assert(a < b || b < a);
    }
}

} // verus!
