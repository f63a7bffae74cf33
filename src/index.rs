//! The name index of one season's summary page: each entity that a summary
//! row links to, found by its slug or by its label.
use vstd::prelude::*;
use vstd::string::*;
use crate::driver::{driver_of, DriverFragment, DriverSummary, DriverSummaryEntry};
use crate::race::{circuit_of, Circuit, RaceSummary, RaceSummaryEntry};
use crate::resolve::ResolveError;
use crate::scrape::{
    driver_result_address, race_result_address, team_result_address, url_parses, PageTarget,
    UrlError, DriverResultTarget, RaceResultTarget, TeamResultTarget,
};
use crate::team::{team_of, Team, TeamSummary, TeamSummaryEntry};
use crate::text::{lower_of, lowercase, trim, trim_of};

verus! {

/// The identity of one entity, enough to address its detail page.
#[derive(Debug, Clone, PartialEq, Eq)]
pub enum EntityFragment {
    Circuit(Circuit),
    Driver(DriverFragment),
    Team(Team),
}

impl EntityFragment {
    /// The entity's slug in the archive's links.
    pub open spec fn slug(&self) -> Seq<char> {
        match self {
            EntityFragment::Circuit(c) => c.name@,
            EntityFragment::Driver(d) => d.name@,
            EntityFragment::Team(t) => t.name@,
        }
    }

    /// The label that the summary row shows.
    pub open spec fn label(&self) -> Seq<char> {
        match self {
            EntityFragment::Circuit(c) => c.display_name@,
            EntityFragment::Driver(d) => d.display_name@,
            EntityFragment::Team(t) => t.display_name@,
        }
    }

    /// The address of the entity's detail page in a season.
    pub open spec fn detail_address(&self, year: u16) -> Seq<char> {
        match self {
            EntityFragment::Circuit(c) => race_result_address(year, *c),
            EntityFragment::Driver(d) => driver_result_address(year, *d),
            EntityFragment::Team(t) => team_result_address(year, *t),
        }
    }

    pub fn slug_text(&self) -> (r: &str)
        ensures
            r@ == self.slug(),
    {
        match self {
            EntityFragment::Circuit(c) => c.name.as_str(),
            EntityFragment::Driver(d) => d.name.as_str(),
            EntityFragment::Team(t) => t.name.as_str(),
        }
    }

    pub fn label_text(&self) -> (r: &str)
        ensures
            r@ == self.label(),
    {
        match self {
            EntityFragment::Circuit(c) => c.display_name.as_str(),
            EntityFragment::Driver(d) => d.display_name.as_str(),
            EntityFragment::Team(t) => t.display_name.as_str(),
        }
    }

    /// A copy of this entity.
    pub fn cloned(&self) -> (r: EntityFragment)
        ensures
            r == *self,
    {
        match self {
            EntityFragment::Circuit(c) => EntityFragment::Circuit(c.cloned()),
            EntityFragment::Driver(d) => EntityFragment::Driver(d.cloned()),
            EntityFragment::Team(t) => EntityFragment::Team(t.cloned()),
        }
    }

    /// The target of the entity's detail page in a season.
    pub fn detail_target(&self, year: u16) -> (r: Result<PageTarget, UrlError>)
        ensures
            r is Ok <==> url_parses(self.detail_address(year)),
            r is Ok ==> r->Ok_0.address_view() == self.detail_address(year),
    {
        match self {
            EntityFragment::Circuit(c) => Ok(RaceResultTarget::new(year, c)?.page),
            EntityFragment::Driver(d) => Ok(DriverResultTarget::new(year, d)?.page),
            EntityFragment::Team(t) => Ok(TeamResultTarget::new(year, t)?.page),
        }
    }
}

/// The key that a text is looked up by: trimmed, then lowercased.
pub open spec fn key_of(s: Seq<char>) -> Seq<char> {
    lower_of(trim_of(s))
}

/// The key of an entity in the slug index, or in the label index.
pub open spec fn entity_key(e: EntityFragment, by_label: bool) -> Seq<char> {
    if by_label {
        key_of(e.label())
    } else {
        key_of(e.slug())
    }
}

/// The entity that `key` finds among `entities`: the last one inserted under
/// that key, as a map keeps it.
pub open spec fn lookup(entities: Seq<EntityFragment>, by_label: bool, key: Seq<char>) -> Option<
    EntityFragment,
>
    decreases entities.len(),
{
    if entities.len() == 0 {
        None
    } else if entity_key(entities.last(), by_label) == key {
        Some(entities.last())
    } else {
        lookup(entities.drop_last(), by_label, key)
    }
}

/// Whether no entity after position `i` has the same slug key.
pub open spec fn is_latest(entities: Seq<EntityFragment>, i: int) -> bool {
    forall|j: int|
        i < j < entities.len() ==> entity_key(#[trigger] entities[j], false) != entity_key(
            entities[i],
            false,
        )
}

/// The entities of the slug index among the first `n`, one per key, in the
/// order in which their last insertion stands.
pub open spec fn distinct_upto(entities: Seq<EntityFragment>, n: nat) -> Seq<EntityFragment>
    decreases n,
{
    if n == 0 {
        Seq::empty()
    } else {
        let prev = distinct_upto(entities, (n - 1) as nat);
        if is_latest(entities, n - 1) {
            prev.push(entities[n - 1])
        } else {
            prev
        }
    }
}

/// The entities of the slug index, one per key.
pub open spec fn distinct_entities(entities: Seq<EntityFragment>) -> Seq<EntityFragment> {
    distinct_upto(entities, entities.len())
}

/// Whether `x` is an entity that stands last under its slug key among the
/// first `n`.
pub open spec fn is_latest_below(entities: Seq<EntityFragment>, x: EntityFragment, n: nat) -> bool {
    exists|i: int| 0 <= i < n && #[trigger] is_latest(entities, i) && x == entities[i]
}

proof fn lemma_distinct_upto_members(entities: Seq<EntityFragment>, n: nat)
    requires
        n <= entities.len(),
    ensures
        forall|m: int|
            0 <= m < distinct_upto(entities, n).len() ==> is_latest_below(
                entities,
                #[trigger] distinct_upto(entities, n)[m],
                n,
            ),
        forall|a: int, b: int|
            0 <= a < b < distinct_upto(entities, n).len() ==> entity_key(
                #[trigger] distinct_upto(entities, n)[a],
                false,
            ) != entity_key(#[trigger] distinct_upto(entities, n)[b], false),
    decreases n,
{
    if n > 0 {
        let prev = distinct_upto(entities, (n - 1) as nat);
        lemma_distinct_upto_members(entities, (n - 1) as nat);
        let cur = distinct_upto(entities, n);
        assert forall|m: int| 0 <= m < prev.len() implies is_latest_below(
            entities,
            #[trigger] prev[m],
            n,
        ) by {
            assert(is_latest_below(entities, prev[m], (n - 1) as nat));
            let i = choose|i: int|
                0 <= i < n - 1 && #[trigger] is_latest(entities, i) && prev[m] == entities[i];
            assert(0 <= i < n && is_latest(entities, i) && prev[m] == entities[i]);
        }
        if is_latest(entities, n - 1) {
            assert(cur == prev.push(entities[n - 1]));
            assert forall|m: int| 0 <= m < cur.len() implies is_latest_below(
                entities,
                #[trigger] cur[m],
                n,
            ) by {
                if m < prev.len() {
                    assert(cur[m] == prev[m]);
                } else {
                    assert(cur[m] == entities[n - 1]);
                    assert(is_latest(entities, n - 1));
                }
            }
            assert forall|a: int, b: int| 0 <= a < b < cur.len() implies entity_key(
                #[trigger] cur[a],
                false,
            ) != entity_key(#[trigger] cur[b], false) by {
                if b < prev.len() {
                    assert(cur[a] == prev[a] && cur[b] == prev[b]);
                } else {
                    assert(cur[a] == prev[a]);
                    assert(cur[b] == entities[n - 1]);
                    assert(is_latest_below(entities, prev[a], (n - 1) as nat));
                    let i = choose|i: int|
                        0 <= i < n - 1 && #[trigger] is_latest(entities, i) && prev[a] == entities[i];
                    assert(entity_key(entities[n - 1], false) != entity_key(entities[i], false));
                }
            }
        } else {
            assert(cur == prev);
        }
    }
}

proof fn lemma_latest_is_listed(entities: Seq<EntityFragment>, i: int, n: nat)
    requires
        0 <= i < n <= entities.len(),
        is_latest(entities, i),
    ensures
        distinct_upto(entities, n).contains(entities[i]),
    decreases n,
{
    let prev = distinct_upto(entities, (n - 1) as nat);
    if i == n - 1 {
        assert(distinct_upto(entities, n) == prev.push(entities[i]));
        assert(distinct_upto(entities, n)[prev.len() as int] == entities[i]);
    } else {
        lemma_latest_is_listed(entities, i, (n - 1) as nat);
        let m = choose|m: int| 0 <= m < prev.len() && prev[m] == entities[i];
        if is_latest(entities, n - 1) {
            assert(distinct_upto(entities, n)[m] == entities[i]);
        }
    }
}

proof fn lemma_lookup_finds_latest(entities: Seq<EntityFragment>, key: Seq<char>)
    requires
        lookup(entities, false, key) is Some,
    ensures
        exists|i: int|
            0 <= i < entities.len() && is_latest(entities, i) && entities[i] == lookup(
                entities,
                false,
                key,
            )->Some_0 && entity_key(entities[i], false) == key,
    decreases entities.len(),
{
    let last = entities.len() - 1;
    if entity_key(entities.last(), false) == key {
        assert(is_latest(entities, last));
    } else {
        let init = entities.drop_last();
        lemma_lookup_finds_latest(init, key);
        let i = choose|i: int|
            0 <= i < init.len() && is_latest(init, i) && init[i] == lookup(init, false, key)->Some_0
                && entity_key(init[i], false) == key;
        assert(entities[i] == init[i]);
        assert forall|j: int| i < j < entities.len() implies entity_key(
            #[trigger] entities[j],
            false,
        ) != entity_key(entities[i], false) by {
            if j < last {
                assert(entities[j] == init[j]);
            }
        }
    }
}

/// Without a name, each entity is chosen under its own slug key: no two chosen
/// entities share one, and whatever the slug index finds is among them.
pub proof fn lemma_all_entities_once(entities: Seq<EntityFragment>)
    ensures
        forall|a: int, b: int|
            0 <= a < b < distinct_entities(entities).len() ==> entity_key(
                #[trigger] distinct_entities(entities)[a],
                false,
            ) != entity_key(#[trigger] distinct_entities(entities)[b], false),
        forall|key: Seq<char>|
            #[trigger] lookup(entities, false, key) is Some ==> distinct_entities(
                entities,
            ).contains(lookup(entities, false, key)->Some_0),
{
    lemma_distinct_upto_members(entities, entities.len());
    assert forall|key: Seq<char>| #[trigger] lookup(entities, false, key) is Some implies distinct_entities(
        entities,
    ).contains(lookup(entities, false, key)->Some_0) by {
        lemma_lookup_finds_latest(entities, key);
        let i = choose|i: int|
            0 <= i < entities.len() && is_latest(entities, i) && entities[i] == lookup(
                entities,
                false,
                key,
            )->Some_0 && entity_key(entities[i], false) == key;
        lemma_latest_is_listed(entities, i, entities.len());
    }
}

proof fn lemma_lookup_some(entities: Seq<EntityFragment>, i: int)
    requires
        0 <= i < entities.len(),
    ensures
        lookup(entities, false, entity_key(entities[i], false)) is Some,
    decreases entities.len(),
{
    if i < entities.len() - 1 && entity_key(entities.last(), false) != entity_key(entities[i], false) {
        assert(entities.drop_last()[i] == entities[i]);
        lemma_lookup_some(entities.drop_last(), i);
    }
}

/// The slug keys of a sequence of entities.
pub open spec fn slug_keys(entities: Seq<EntityFragment>) -> Seq<Seq<char>> {
    entities.map_values(|e: EntityFragment| entity_key(e, false))
}

/// Without a name, as many entities are chosen as there are distinct slug keys
/// among all entities: one per key.
pub proof fn lemma_all_entities_count(entities: Seq<EntityFragment>)
    ensures
        distinct_entities(entities).len() == slug_keys(entities).to_set().len(),
{
    let d = distinct_entities(entities);
    let kd = slug_keys(d);
    let ke = slug_keys(entities);
    lemma_distinct_upto_members(entities, entities.len());
    lemma_all_entities_once(entities);
    assert(kd.no_duplicates()) by {
        assert forall|a: int, b: int| 0 <= a < kd.len() && 0 <= b < kd.len() && a != b implies kd[a]
            != kd[b] by {
            if a < b {
                assert(entity_key(d[a], false) != entity_key(d[b], false));
            } else {
                assert(entity_key(d[b], false) != entity_key(d[a], false));
            }
        }
    }
    assert(kd.to_set() =~= ke.to_set()) by {
        assert forall|k: Seq<char>| kd.to_set().contains(k) implies ke.to_set().contains(k) by {
            let m = choose|m: int| 0 <= m < kd.len() && kd[m] == k;
            assert(is_latest_below(entities, d[m], entities.len()));
            let i = choose|i: int|
                0 <= i < entities.len() && #[trigger] is_latest(entities, i) && d[m] == entities[i];
            assert(ke[i] == k);
        }
        assert forall|k: Seq<char>| ke.to_set().contains(k) implies kd.to_set().contains(k) by {
            let i = choose|i: int| 0 <= i < ke.len() && ke[i] == k;
            lemma_lookup_some(entities, i);
            lemma_lookup_finds_latest(entities, k);
            let found = lookup(entities, false, k)->Some_0;
            assert(d.contains(found));
            let m = choose|m: int| 0 <= m < d.len() && d[m] == found;
            let j = choose|j: int|
                0 <= j < entities.len() && is_latest(entities, j) && entities[j] == found
                    && entity_key(entities[j], false) == k;
            assert(kd[m] == k);
        }
    }
    kd.unique_seq_to_set();
}

/// The outcome of choosing entities by an optional name: all of them without
/// a name; with one, what its key finds in the slug index, else in the label
/// index; `None` where neither finds it.
pub open spec fn selection(entities: Seq<EntityFragment>, name: Option<Seq<char>>) -> Option<
    Seq<EntityFragment>,
> {
    match name {
        None => Some(distinct_entities(entities)),
        Some(n) => match lookup(entities, false, key_of(n)) {
            Some(e) => Some(seq![e]),
            None => match lookup(entities, true, key_of(n)) {
                Some(e) => Some(seq![e]),
                None => None,
            },
        },
    }
}

/// The text of an optional name.
pub open spec fn name_view(name: Option<&str>) -> Option<Seq<char>> {
    match name {
        Some(n) => Some(n@),
        None => None,
    }
}

/// The entities of one summary page, indexed by slug and by label.
#[derive(Debug)]
pub struct NameIndex {
    entities: Vec<EntityFragment>,
    slug_keys: Vec<String>,
    label_keys: Vec<String>,
}

impl NameIndex {
    /// The entities in the order in which they were inserted.
    pub closed spec fn view(&self) -> Seq<EntityFragment> {
        self.entities@
    }

    pub closed spec fn wf(&self) -> bool {
        &&& self.slug_keys@.len() == self.entities@.len()
        &&& self.label_keys@.len() == self.entities@.len()
        &&& forall|i: int|
            0 <= i < self.entities@.len() ==> (#[trigger] self.slug_keys@[i])@ == entity_key(
                self.entities@[i],
                false,
            ) && self.label_keys@[i]@ == entity_key(self.entities@[i], true)
    }

    pub fn new() -> (r: NameIndex)
        ensures
            r.wf(),
            r.view() == Seq::<EntityFragment>::empty(),
    {
        NameIndex { entities: Vec::new(), slug_keys: Vec::new(), label_keys: Vec::new() }
    }

    /// Inserts an entity under its slug key and its label key.
    pub fn insert(&mut self, e: EntityFragment)
        requires
            old(self).wf(),
        ensures
            final(self).wf(),
            final(self).view() == old(self).view().push(e),
    {
        let slug = lowercase(trim(e.slug_text()).as_str());
        let label = lowercase(trim(e.label_text()).as_str());
        self.entities.push(e);
        self.slug_keys.push(slug);
        self.label_keys.push(label);
        assert forall|i: int| 0 <= i < self.entities@.len() implies (#[trigger] self.slug_keys@[i])@
            == entity_key(self.entities@[i], false) && self.label_keys@[i]@ == entity_key(
            self.entities@[i],
            true,
        ) by {
            if i < old(self).entities@.len() {
                assert(self.slug_keys@[i] == old(self).slug_keys@[i]);
            }
        }
    }

    /// The number of entities inserted.
    pub fn len(&self) -> (r: usize)
        ensures
            r == self.view().len(),
    {
        self.entities.len()
    }

    /// The entity that a key finds in the slug index, or in the label index.
    pub fn get(&self, key: &str, by_label: bool) -> (r: Option<EntityFragment>)
        requires
            self.wf(),
        ensures
            r == lookup(self.view(), by_label, key@),
    {
        let wanted = String::from_str(key);
        let mut i: usize = self.entities.len();
        assert(self.view().subrange(0, i as int) =~= self.view());
        while i > 0
            invariant
                self.wf(),
                i <= self.entities@.len(),
                wanted@ == key@,
                lookup(self.view(), by_label, key@) == lookup(
                    self.view().subrange(0, i as int),
                    by_label,
                    key@,
                ),
            decreases i,
        {
            let ghost pre = self.view().subrange(0, i as int);
            assert(pre.drop_last() =~= self.view().subrange(0, i - 1));
            assert(pre.last() == self.entities@[i - 1]);
            assert(self.slug_keys@[i - 1]@ == entity_key(self.entities@[i - 1], false));
            assert(self.label_keys@[i - 1]@ == entity_key(self.entities@[i - 1], true));
            let k = if by_label {
                &self.label_keys[i - 1]
            } else {
                &self.slug_keys[i - 1]
            };
            if k.eq(&wanted) {
                return Some(self.entities[i - 1].cloned());
            }
            i = i - 1;
        }
        None
    }

    /// Every entity of the slug index, one per key.
    pub fn entities(&self) -> (r: Vec<EntityFragment>)
        requires
            self.wf(),
        ensures
            r@ == distinct_entities(self.view()),
    {
        let n = self.entities.len();
        let mut out: Vec<EntityFragment> = Vec::new();
        let mut i: usize = 0;
        while i < n
            invariant
                self.wf(),
                n == self.entities@.len(),
                i <= n,
                out@ == distinct_upto(self.view(), i as nat),
            decreases n - i,
        {
            let mut latest = true;
            let mut j: usize = i + 1;
            while j < n
                invariant
                    self.wf(),
                    n == self.entities@.len(),
                    i < j <= n,
                    latest == (forall|m: int|
                        i < m < j ==> entity_key(#[trigger] self.entities@[m], false) != entity_key(
                            self.entities@[i as int],
                            false,
                        )),
                decreases n - j,
            {
                if self.slug_keys[j].eq(&self.slug_keys[i]) {
                    latest = false;
                }
                j = j + 1;
            }
            if latest {
                out.push(self.entities[i].cloned());
            }
            i = i + 1;
        }
        out
    }

    /// The entities that an optional name selects: all of them without a name;
    /// with one, what its key finds in the slug index first, else in the label
    /// index.
    pub fn select(&self, name: Option<&str>) -> (r: Option<Vec<EntityFragment>>)
        requires
            self.wf(),
        ensures
            match selection(self.view(), name_view(name)) {
                Some(s) => r is Some && r->Some_0@ == s,
                None => r is None,
            },
    {
        match name {
            None => Some(self.entities()),
            Some(n) => {
                let key = lowercase(trim(n).as_str());
                match self.get(key.as_str(), false) {
                    Some(e) => Some(vec![e]),
                    None => match self.get(key.as_str(), true) {
                        Some(e) => Some(vec![e]),
                        None => None,
                    },
                }
            },
        }
    }
}

/// Why a summary page yielded no index: the row at `row`, labelled `label`,
/// links to no entity.
#[derive(Debug, Clone, PartialEq, Eq)]
pub struct IndexError {
    pub row: usize,
    pub label: String,
    pub error: ResolveError,
}

/// Whether `e` is the circuit that a race summary row links to.
pub open spec fn is_circuit_of(e: EntityFragment, row: RaceSummaryEntry) -> bool {
    match circuit_of(row.url@) {
        Ok((idx, slug)) => e is Circuit && e->Circuit_0.idx == idx && e->Circuit_0.name@ == slug
            && e->Circuit_0.display_name@ == row.grand_prix@,
        Err(_) => false,
    }
}

/// Whether `e` is the driver that a driver standings row links to.
pub open spec fn is_driver_of(e: EntityFragment, row: DriverSummaryEntry) -> bool {
    match driver_of(row.url@) {
        Ok((id, slug)) => e is Driver && e->Driver_0.id@ == id && e->Driver_0.name@ == slug
            && e->Driver_0.display_name@ == row.driver@,
        Err(_) => false,
    }
}

/// Whether `e` is the team that a constructor standings row links to.
pub open spec fn is_team_of(e: EntityFragment, row: TeamSummaryEntry) -> bool {
    match team_of(row.url@) {
        Ok(slug) => e is Team && e->Team_0.name@ == slug && e->Team_0.display_name@ == row.team@,
        Err(_) => false,
    }
}

/// Indexes the circuit of every race of a summary, in row order. The first row
/// whose link names no circuit fails the whole index.
pub fn index_races(summary: &RaceSummary) -> (r: Result<NameIndex, IndexError>)
    ensures
        r is Ok <==> forall|i: int| 0 <= i < summary.data@.len() ==> (#[trigger] circuit_of(summary.data@[i].url@)) is Ok,
        r is Ok ==> r->Ok_0.wf() && r->Ok_0.view().len() == summary.data@.len() && forall|i: int|
            0 <= i < summary.data@.len() ==> is_circuit_of(#[trigger] r->Ok_0.view()[i], summary.data@[i]),
        r is Err ==> {
            let e = r->Err_0;
            &&& e.row < summary.data@.len()
            &&& forall|k: int| 0 <= k < e.row ==> (#[trigger] circuit_of(summary.data@[k].url@)) is Ok
            &&& circuit_of(summary.data@[e.row as int].url@) == Err::<(nat, Seq<char>), ResolveError>(e.error)
            &&& e.label@ == summary.data@[e.row as int].grand_prix@
        },
{
    let mut index = NameIndex::new();
    let mut i: usize = 0;
    while i < summary.data.len()
        invariant
            i <= summary.data@.len(),
            index.wf(),
            index.view().len() == i,
            forall|k: int| 0 <= k < i ==> (#[trigger] circuit_of(summary.data@[k].url@)) is Ok,
            forall|k: int| 0 <= k < i ==> is_circuit_of(#[trigger] index.view()[k], summary.data@[k]),
        decreases summary.data@.len() - i,
    {
        let row = &summary.data[i];
        match row.circuit() {
            Ok(c) => {
                let ghost before = index.view();
                index.insert(EntityFragment::Circuit(c));
                assert forall|k: int| 0 <= k < i + 1 implies is_circuit_of(
                    #[trigger] index.view()[k],
                    summary.data@[k],
                ) by {
                    if k < i {
                        assert(index.view()[k] == before[k]);
                    }
                }
            },
            Err(error) => {
                return Err(IndexError { row: i, label: row.grand_prix.clone(), error });
            },
        }
        i = i + 1;
    }
    Ok(index)
}

/// Indexes every driver of a standings table, in row order. The first row
/// whose link names no driver fails the whole index.
pub fn index_drivers(summary: &DriverSummary) -> (r: Result<NameIndex, IndexError>)
    ensures
        r is Ok <==> forall|i: int| 0 <= i < summary.data@.len() ==> (#[trigger] driver_of(summary.data@[i].url@)) is Ok,
        r is Ok ==> r->Ok_0.wf() && r->Ok_0.view().len() == summary.data@.len() && forall|i: int|
            0 <= i < summary.data@.len() ==> is_driver_of(#[trigger] r->Ok_0.view()[i], summary.data@[i]),
        r is Err ==> {
            let e = r->Err_0;
            &&& e.row < summary.data@.len()
            &&& forall|k: int| 0 <= k < e.row ==> (#[trigger] driver_of(summary.data@[k].url@)) is Ok
            &&& driver_of(summary.data@[e.row as int].url@) == Err::<(Seq<char>, Seq<char>), ResolveError>(e.error)
            &&& e.label@ == summary.data@[e.row as int].driver@
        },
{
    let mut index = NameIndex::new();
    let mut i: usize = 0;
    while i < summary.data.len()
        invariant
            i <= summary.data@.len(),
            index.wf(),
            index.view().len() == i,
            forall|k: int| 0 <= k < i ==> (#[trigger] driver_of(summary.data@[k].url@)) is Ok,
            forall|k: int| 0 <= k < i ==> is_driver_of(#[trigger] index.view()[k], summary.data@[k]),
        decreases summary.data@.len() - i,
    {
        let row = &summary.data[i];
        match row.driver() {
            Ok(d) => {
                let ghost before = index.view();
                index.insert(EntityFragment::Driver(d));
                assert forall|k: int| 0 <= k < i + 1 implies is_driver_of(
                    #[trigger] index.view()[k],
                    summary.data@[k],
                ) by {
                    if k < i {
                        assert(index.view()[k] == before[k]);
                    }
                }
            },
            Err(error) => {
                return Err(IndexError { row: i, label: row.driver.clone(), error });
            },
        }
        i = i + 1;
    }
    Ok(index)
}

/// Indexes every team of a standings table, in row order. The first row whose
/// link names no team fails the whole index.
pub fn index_teams(summary: &TeamSummary) -> (r: Result<NameIndex, IndexError>)
    ensures
        r is Ok <==> forall|i: int| 0 <= i < summary.data@.len() ==> (#[trigger] team_of(summary.data@[i].url@)) is Ok,
        r is Ok ==> r->Ok_0.wf() && r->Ok_0.view().len() == summary.data@.len() && forall|i: int|
            0 <= i < summary.data@.len() ==> is_team_of(#[trigger] r->Ok_0.view()[i], summary.data@[i]),
        r is Err ==> {
            let e = r->Err_0;
            &&& e.row < summary.data@.len()
            &&& forall|k: int| 0 <= k < e.row ==> (#[trigger] team_of(summary.data@[k].url@)) is Ok
            &&& team_of(summary.data@[e.row as int].url@) == Err::<Seq<char>, ResolveError>(e.error)
            &&& e.label@ == summary.data@[e.row as int].team@
        },
{
    let mut index = NameIndex::new();
    let mut i: usize = 0;
    while i < summary.data.len()
        invariant
            i <= summary.data@.len(),
            index.wf(),
            index.view().len() == i,
            forall|k: int| 0 <= k < i ==> (#[trigger] team_of(summary.data@[k].url@)) is Ok,
            forall|k: int| 0 <= k < i ==> is_team_of(#[trigger] index.view()[k], summary.data@[k]),
        decreases summary.data@.len() - i,
    {
        let row = &summary.data[i];
        match row.team() {
            Ok(t) => {
                let ghost before = index.view();
                index.insert(EntityFragment::Team(t));
                assert forall|k: int| 0 <= k < i + 1 implies is_team_of(
                    #[trigger] index.view()[k],
                    summary.data@[k],
                ) by {
                    if k < i {
                        assert(index.view()[k] == before[k]);
                    }
                }
            },
            Err(error) => {
                return Err(IndexError { row: i, label: row.team.clone(), error });
            },
        }
        i = i + 1;
    }
    Ok(index)
}

} // verus!
