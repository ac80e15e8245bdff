//! The panes that show the agents: finding them in what the multiplexer lists, and
//! deciding whether to go there, to close one or to open one.
use vstd::prelude::*;

use crate::json::{
    Json, boolean_member, items, json_document, json_view, read_json, text_member, unsigned_member,
};
use crate::model::text_view;
use crate::text::{as_u32, parse_u32, same_text};

verus! {

/// The title of a pane that shows the agents.
pub const PANE_TITLE: &'static str = "zj-agents";

/// A pane that shows the agents, anywhere in the session.
#[derive(Clone, Copy, Debug, PartialEq, Eq, Structural)]
pub struct PaneHit {
    pub id: u32,
    pub tab_position: usize,
    pub focused: bool,
}

/// What a listing says of one pane, as far as it says it.
#[derive(Debug)]
pub struct PaneRecord {
    pub title: Option<String>,
    pub exited: Option<bool>,
    pub id: Option<u64>,
    pub tab_position: Option<u64>,
    pub is_focused: Option<bool>,
}

/// What a `PaneRecord` says.
pub struct RecordView {
    pub title: Option<Seq<char>>,
    pub exited: Option<bool>,
    pub id: Option<u64>,
    pub tab_position: Option<u64>,
    pub is_focused: Option<bool>,
}

impl View for PaneRecord {
    type V = RecordView;

    open spec fn view(&self) -> RecordView {
        RecordView {
            title: text_view(self.title),
            exited: self.exited,
            id: self.id,
            tab_position: self.tab_position,
            is_focused: self.is_focused,
        }
    }
}

/// What a listing says of the pane that `pane` describes.
pub open spec fn record_of(pane: Json) -> RecordView {
    RecordView {
        title: pane.text_member("title"@),
        exited: pane.boolean_member("exited"@),
        id: pane.unsigned_member("id"@),
        tab_position: pane.unsigned_member("tab_position"@),
        is_focused: pane.boolean_member("is_focused"@),
    }
}

/// The pane of a record, if it shows the agents: it bears their title, is known not
/// to have exited, and has an id and a tab. A pane is focused only if the record
/// says so. An id keeps its lowest 32 bits, and a position those that a `usize` has.
pub open spec fn hit_of(record: RecordView) -> Option<PaneHit> {
    if record.title == Some(PANE_TITLE@) && record.exited == Some(false) && record.id is Some
        && record.tab_position is Some {
        Some(
            PaneHit {
                id: (record.id->0 % 0x1_0000_0000) as u32,
                tab_position: record.tab_position->0 as usize,
                focused: record.is_focused == Some(true),
            },
        )
    } else {
        None
    }
}

/// The panes of `records` that show the agents, in their order.
pub open spec fn hits_of(records: Seq<RecordView>) -> Seq<PaneHit>
    decreases records.len(),
{
    if records.len() == 0 {
        Seq::empty()
    } else {
        let before = hits_of(records.drop_last());
        match hit_of(records.last()) {
            Some(hit) => before.push(hit),
            None => before,
        }
    }
}

/// The panes that show the agents, of a whole listing. A listing that is not an
/// array has none.
pub open spec fn listed(document: Option<Json>) -> Seq<PaneHit> {
    match document {
        Some(Json::Array(panes)) => hits_of(panes.map_values(|pane: Json| record_of(pane))),
        _ => Seq::empty(),
    }
}

/// Picks the pane of a record, if it shows the agents.
pub fn pane_hit(record: &PaneRecord) -> (hit: Option<PaneHit>)
    ensures
        hit == hit_of(record@),
{
    match &record.title {
        Some(title) => if !same_text(title.as_str(), PANE_TITLE) {
            return None;
        },
        None => return None,
    }
    if record.exited.unwrap_or(true) {
        return None;
    }
    let id = match record.id {
        Some(id) => id,
        None => return None,
    };
    let tab_position = match record.tab_position {
        Some(position) => position,
        None => return None,
    };
    assert(id as u32 == id % 0x1_0000_0000) by (bit_vector);
    Some(
        PaneHit {
            id: id as u32,
            tab_position: tab_position as usize,
            focused: record.is_focused.unwrap_or(false),
        },
    )
}

/// Reads what a listing says of one pane.
fn pane_record(pane: &serde_json::Value) -> (record: PaneRecord)
    ensures
        record@ == record_of(json_view(*pane)),
{
    PaneRecord {
        title: text_member(pane, "title"),
        exited: boolean_member(pane, "exited"),
        id: unsigned_member(pane, "id"),
        tab_position: unsigned_member(pane, "tab_position"),
        is_focused: boolean_member(pane, "is_focused"),
    }
}

/// The bytes of an optional output.
pub open spec fn bytes_view(output: Option<Vec<u8>>) -> Option<Seq<u8>> {
    match output {
        Some(bytes) => Some(bytes@),
        None => None,
    }
}

/// The panes that show the agents, in the output that lists all panes.
pub open spec fn panes_in(listing: Option<Seq<u8>>) -> Seq<PaneHit> {
    match listing {
        Some(bytes) => listed(json_document(bytes)),
        None => Seq::empty(),
    }
}

/// The position of the current tab, in the output that describes it.
pub open spec fn tab_in(info: Option<Seq<u8>>) -> Option<usize> {
    match info {
        Some(bytes) => position_in(json_document(bytes)),
        None => None,
    }
}

/// Finds the panes that show the agents in the JSON listing of all panes. Without a
/// listing there are none.
pub fn agent_panes(listing: &Option<Vec<u8>>) -> (hits: Vec<PaneHit>)
    ensures
        hits@ == (match *listing {
            Some(bytes) => listed(json_document(bytes@)),
            None => Seq::empty(),
        }),
        hits@ == panes_in(bytes_view(*listing)),
{
    let mut hits: Vec<PaneHit> = Vec::new();
    let bytes = match listing {
        Some(bytes) => bytes,
        None => return hits,
    };
    let value = match read_json(bytes.as_slice()) {
        Some(value) => value,
        None => return hits,
    };
    let panes = match items(&value) {
        Some(panes) => panes,
        None => return hits,
    };
    let ghost records = json_view(value)->Array_0.map_values(|pane: Json| record_of(pane));
    let mut i: usize = 0;
    while i < panes.len()
        invariant
            i <= panes.len(),
            records.len() == panes.len(),
            forall|k: int|
                0 <= k < panes.len() ==> #[trigger] records[k] == record_of(json_view(panes@[k])),
            hits@ == hits_of(records.take(i as int)),
        decreases panes.len() - i,
    {
        assert(records.take(i + 1).drop_last() =~= records.take(i as int));
        let record = pane_record(&panes[i]);
        if let Some(hit) = pane_hit(&record) {
            hits.push(hit);
        }
        i += 1;
    }
    assert(records.take(i as int) =~= records);
    hits
}

/// The position of the current tab, from what describes it.
pub open spec fn position_in(document: Option<Json>) -> Option<usize> {
    match document {
        Some(tab) => match tab.unsigned_member("position"@) {
            Some(position) => Some(position as usize),
            None => None,
        },
        None => None,
    }
}

/// Reads the position of the current tab from the JSON that describes it.
pub fn current_tab_position(info: &Option<Vec<u8>>) -> (position: Option<usize>)
    ensures
        position == (match *info {
            Some(bytes) => position_in(json_document(bytes@)),
            None => None,
        }),
        position == tab_in(bytes_view(*info)),
{
    let bytes = match info {
        Some(bytes) => bytes,
        None => return None,
    };
    let tab = match read_json(bytes.as_slice()) {
        Some(tab) => tab,
        None => return None,
    };
    match unsigned_member(&tab, "position") {
        Some(position) => Some(position as usize),
        None => None,
    }
}

/// The id of the pane that a program runs in, from the variable that holds it.
pub fn own_pane_id(var: &Option<String>) -> (id: Option<u32>)
    ensures
        id == (match *var {
            Some(var) => as_u32(var@),
            None => None,
        }),
{
    match var {
        Some(var) => parse_u32(var.as_str()),
        None => None,
    }
}

/// What is to be done about the panes that show the agents.
#[derive(Clone, Copy, Debug, PartialEq, Eq, Structural)]
pub enum Decision {
    /// Close the pane with this id.
    Close(u32),
    /// Go to this pane.
    Jump(PaneHit),
    /// There is none: open one.
    Open,
}

/// The first of `panes` in the tab at `position`.
pub open spec fn first_in_tab(panes: Seq<PaneHit>, position: Option<usize>) -> Option<PaneHit>
    decreases panes.len(),
{
    if panes.len() == 0 {
        None
    } else if position == Some(panes[0].tab_position) {
        Some(panes[0])
    } else {
        first_in_tab(panes.drop_first(), position)
    }
}

/// The first of `panes` whose id is `id`.
pub open spec fn first_with_id(panes: Seq<PaneHit>, id: Option<u32>) -> Option<PaneHit>
    decreases panes.len(),
{
    if panes.len() == 0 {
        None
    } else if id == Some(panes[0].id) {
        Some(panes[0])
    } else {
        first_with_id(panes.drop_first(), id)
    }
}

/// The pane that is at hand: one in the current tab or, failing that, the pane that
/// the program itself runs in.
pub open spec fn at_hand(panes: Seq<PaneHit>, own: Option<u32>, current: Option<usize>) -> Option<
    PaneHit,
> {
    match first_in_tab(panes, current) {
        Some(hit) => Some(hit),
        None => first_with_id(panes, own),
    }
}

/// What a toggle does: it closes the pane at hand if that is the program's own and
/// has the focus, else goes to it; where none is at hand it goes to the first there
/// is, and where there is none at all it opens one.
pub open spec fn toggled(panes: Seq<PaneHit>, own: Option<u32>, current: Option<usize>) -> Decision {
    match at_hand(panes, own, current) {
        Some(hit) => if own == Some(hit.id) && hit.focused {
            Decision::Close(hit.id)
        } else {
            Decision::Jump(hit)
        },
        None => if panes.len() > 0 {
            Decision::Jump(panes[0])
        } else {
            Decision::Open
        },
    }
}

fn find_in_tab(panes: &Vec<PaneHit>, position: Option<usize>) -> (hit: Option<PaneHit>)
    ensures
        hit == first_in_tab(panes@, position),
{
    let mut i: usize = 0;
    assert(panes@.skip(0) =~= panes@);
    while i < panes.len()
        invariant
            i <= panes.len(),
            first_in_tab(panes@, position) == first_in_tab(panes@.skip(i as int), position),
        decreases panes.len() - i,
    {
        assert(panes@.skip(i as int).drop_first() =~= panes@.skip(i + 1));
        if position == Some(panes[i].tab_position) {
            return Some(panes[i]);
        }
        i += 1;
    }
    None
}

fn find_with_id(panes: &Vec<PaneHit>, id: Option<u32>) -> (hit: Option<PaneHit>)
    ensures
        hit == first_with_id(panes@, id),
{
    let mut i: usize = 0;
    assert(panes@.skip(0) =~= panes@);
    while i < panes.len()
        invariant
            i <= panes.len(),
            first_with_id(panes@, id) == first_with_id(panes@.skip(i as int), id),
        decreases panes.len() - i,
    {
        assert(panes@.skip(i as int).drop_first() =~= panes@.skip(i + 1));
        if id == Some(panes[i].id) {
            return Some(panes[i]);
        }
        i += 1;
    }
    None
}

/// Decides what a toggle does, given the panes that show the agents, the pane that
/// the program runs in, and the current tab.
pub fn run_toggle(panes: &Vec<PaneHit>, own: Option<u32>, current: Option<usize>) -> (decision:
    Decision)
    ensures
        decision == toggled(panes@, own, current),
{
    let here = match find_in_tab(panes, current) {
        Some(hit) => Some(hit),
        None => find_with_id(panes, own),
    };
    match here {
        Some(hit) => if own == Some(hit.id) && hit.focused {
            Decision::Close(hit.id)
        } else {
            Decision::Jump(hit)
        },
        None => if panes.len() > 0 {
            Decision::Jump(panes[0])
        } else {
            Decision::Open
        },
    }
}

/// What a jump does.
pub open spec fn jumped(panes: Seq<PaneHit>) -> Decision {
    if panes.len() > 0 {
        Decision::Jump(panes[0])
    } else {
        Decision::Open
    }
}

/// Decides what a jump does: it goes to the first pane that shows the agents, or
/// opens one.
pub fn run_jump(panes: &Vec<PaneHit>) -> (decision: Decision)
    ensures
        decision == (if panes@.len() > 0 {
            Decision::Jump(panes@[0])
        } else {
            Decision::Open
        }),
        decision == jumped(panes@),
{
    if panes.len() > 0 {
        Decision::Jump(panes[0])
    } else {
        Decision::Open
    }
}

proof fn lemma_first_is_a_pane(panes: Seq<PaneHit>, id: Option<u32>, position: Option<usize>)
    ensures
        first_in_tab(panes, position) matches Some(hit) ==> panes.contains(hit) && position == Some(
            hit.tab_position,
        ),
        first_in_tab(panes, position) is None ==> forall|i: int|
            0 <= i < panes.len() ==> position != Some((#[trigger] panes[i]).tab_position),
        first_with_id(panes, id) matches Some(hit) ==> panes.contains(hit) && id == Some(hit.id),
        first_with_id(panes, id) is None ==> forall|i: int|
            0 <= i < panes.len() ==> id != Some((#[trigger] panes[i]).id),
    decreases panes.len(),
{
    if panes.len() > 0 {
        let rest = panes.drop_first();
        lemma_first_is_a_pane(rest, id, position);
        assert(panes.contains(panes[0]));
        assert forall|hit: PaneHit| rest.contains(hit) implies panes.contains(hit) by {
            let i = choose|i: int| 0 <= i < rest.len() && rest[i] == hit;
            assert(panes[i + 1] == hit);
        }
        assert forall|i: int| 0 < i < panes.len() implies #[trigger] panes[i] == rest[i - 1] by {}
    }
}

/// A toggle never closes a pane from afar: what it closes is the very pane that the
/// program runs in, which shows the agents and has the focus. It opens a pane only
/// where there is none, and goes only to a pane that there is. A pane in the current
/// tab that is not focused is gone to, not closed.
pub proof fn law_toggle_closes_only_its_own_pane(
    panes: Seq<PaneHit>,
    own: Option<u32>,
    current: Option<usize>,
)
    ensures
        toggled(panes, own, current) matches Decision::Close(id) ==> own == Some(id) && exists|i: int|
            0 <= i < panes.len() && (#[trigger] panes[i]).id == id && panes[i].focused,
        toggled(panes, own, current) matches Decision::Jump(hit) ==> panes.contains(hit),
        toggled(panes, own, current) is Open <==> panes.len() == 0,
        first_in_tab(panes, current) matches Some(hit) ==> !hit.focused ==> toggled(
            panes,
            own,
            current,
        ) == Decision::Jump(hit),
{
    lemma_first_is_a_pane(panes, own, current);
    if let Some(hit) = at_hand(panes, own, current) {
        let i = choose|i: int| 0 <= i < panes.len() && panes[i] == hit;
        assert(panes[i] == hit);
    }
    if panes.len() > 0 {
        assert(panes.contains(panes[0]));
    }
}

proof fn lemma_hits(records: Seq<RecordView>, hit: PaneHit)
    ensures
        hits_of(records).contains(hit) <==> exists|i: int|
            0 <= i < records.len() && hit_of(#[trigger] records[i]) == Some(hit),
    decreases records.len(),
{
    if records.len() > 0 {
        let rest = records.drop_last();
        lemma_hits(rest, hit);
        if hits_of(records).contains(hit) {
            let k = choose|k: int| 0 <= k < hits_of(records).len() && hits_of(records)[k] == hit;
            if k < hits_of(rest).len() {
                assert(hits_of(rest)[k] == hit);
                let i = choose|i: int| 0 <= i < rest.len() && hit_of(#[trigger] rest[i]) == Some(hit);
                assert(records[i] == rest[i]);
            } else {
                assert(hit_of(records[records.len() - 1]) == Some(hit));
            }
        }
        if exists|i: int| 0 <= i < records.len() && hit_of(#[trigger] records[i]) == Some(hit) {
            let i = choose|i: int| 0 <= i < records.len() && hit_of(#[trigger] records[i]) == Some(hit);
            if i < rest.len() {
                assert(rest[i] == records[i]);
                let k = choose|k: int| 0 <= k < hits_of(rest).len() && hits_of(rest)[k] == hit;
                assert(hits_of(records)[k] == hit);
            } else {
                assert(hits_of(records)[hits_of(records).len() - 1] == hit);
            }
        }
    }
}

/// A pane is found if and only if one of the records describes it, and no record of
/// another title or of a pane that has exited does.
pub proof fn law_found_panes_are_described(records: Seq<RecordView>, hit: PaneHit)
    ensures
        hits_of(records).contains(hit) <==> exists|i: int|
            0 <= i < records.len() && hit_of(#[trigger] records[i]) == Some(hit),
        forall|i: int|
            0 <= i < records.len() && ((#[trigger] records[i]).title != Some(PANE_TITLE@)
                || records[i].exited != Some(false)) ==> hit_of(records[i]) is None,
{
    lemma_hits(records, hit);
}

proof fn lemma_first_in_tab_at(panes: Seq<PaneHit>, position: Option<usize>, i: int)
    requires
        0 <= i < panes.len(),
        position == Some(panes[i].tab_position),
        forall|j: int| 0 <= j < i ==> position != Some((#[trigger] panes[j]).tab_position),
    ensures
        first_in_tab(panes, position) == Some(panes[i]),
    decreases i,
{
    if i > 0 {
        let rest = panes.drop_first();
        assert(position != Some(panes[0].tab_position));
        assert forall|j: int| 0 <= j < i - 1 implies position != Some(
            (#[trigger] rest[j]).tab_position,
        ) by {
            assert(rest[j] == panes[j + 1]);
        }
        lemma_first_in_tab_at(rest, position, i - 1);
    }
}

proof fn lemma_first_with_id_at(panes: Seq<PaneHit>, id: Option<u32>, i: int)
    requires
        0 <= i < panes.len(),
        id == Some(panes[i].id),
        forall|j: int| 0 <= j < i ==> id != Some((#[trigger] panes[j]).id),
    ensures
        first_with_id(panes, id) == Some(panes[i]),
    decreases i,
{
    if i > 0 {
        let rest = panes.drop_first();
        assert(id != Some(panes[0].id));
        assert forall|j: int| 0 <= j < i - 1 implies id != Some((#[trigger] rest[j]).id) by {
            assert(rest[j] == panes[j + 1]);
        }
        lemma_first_with_id_at(rest, id, i - 1);
    }
}

/// What a toggle does about the pane at hand, which is the first in the current tab: it
/// closes that pane if it is the program's own and has the focus, and goes to it if it is
/// another or has no focus. How many panes there are does not matter.
pub proof fn law_toggle_acts_on_the_first_pane_of_the_current_tab(
    panes: Seq<PaneHit>,
    own: Option<u32>,
    current: Option<usize>,
    i: int,
)
    requires
        0 <= i < panes.len(),
        current == Some(panes[i].tab_position),
        forall|j: int| 0 <= j < i ==> current != Some((#[trigger] panes[j]).tab_position),
    ensures
        own == Some(panes[i].id) && panes[i].focused ==> toggled(panes, own, current)
            == Decision::Close(panes[i].id),
        own != Some(panes[i].id) || !panes[i].focused ==> toggled(panes, own, current)
            == Decision::Jump(panes[i]),
{
    lemma_first_in_tab_at(panes, current, i);
}

/// What a toggle does where the current tab has no pane for the agents: it closes the pane
/// that the program runs in, if that is one of them and has the focus, and goes to it if it
/// has none. If the program runs in another pane, it goes to the first there is.
pub proof fn law_toggle_elsewhere_acts_on_its_own_pane(
    panes: Seq<PaneHit>,
    own: Option<u32>,
    current: Option<usize>,
    i: int,
)
    requires
        forall|j: int|
            0 <= j < panes.len() ==> current != Some((#[trigger] panes[j]).tab_position),
    ensures
        0 <= i < panes.len() && own == Some(panes[i].id) && (forall|j: int|
            0 <= j < i ==> own != Some((#[trigger] panes[j]).id)) ==> {
            &&& panes[i].focused ==> toggled(panes, own, current) == Decision::Close(panes[i].id)
            &&& !panes[i].focused ==> toggled(panes, own, current) == Decision::Jump(panes[i])
        },
        panes.len() > 0 && (forall|j: int|
            0 <= j < panes.len() ==> own != Some((#[trigger] panes[j]).id)) ==> toggled(
            panes,
            own,
            current,
        ) == Decision::Jump(panes[0]),
        panes.len() == 0 ==> toggled(panes, own, current) == Decision::Open,
{
    lemma_first_is_a_pane(panes, own, current);
    if let Some(hit) = first_in_tab(panes, current) {
        let k = choose|k: int| 0 <= k < panes.len() && panes[k] == hit;
        assert(current != Some(panes[k].tab_position));
    }
    if 0 <= i < panes.len() && own == Some(panes[i].id) && (forall|j: int|
        0 <= j < i ==> own != Some((#[trigger] panes[j]).id)) {
        lemma_first_with_id_at(panes, own, i);
    }
    if forall|j: int| 0 <= j < panes.len() ==> own != Some((#[trigger] panes[j]).id) {
        if let Some(hit) = first_with_id(panes, own) {
            let k = choose|k: int| 0 <= k < panes.len() && panes[k] == hit;
            assert(own != Some(panes[k].id));
        }
    }
}

/// A record describes a pane that shows the agents if and only if it bears their title, says
/// that it has not exited, and gives an id and a tab. The pane is then that one, with the
/// focus if and only if the record says so.
pub proof fn law_record_describes_its_pane(record: RecordView)
    ensures
        hit_of(record) is Some <==> {
            &&& record.title == Some(PANE_TITLE@)
            &&& record.exited == Some(false)
            &&& record.id is Some
            &&& record.tab_position is Some
        },
        hit_of(record) matches Some(hit) ==> {
            &&& record.id->0 <= u32::MAX ==> hit.id == record.id->0
            &&& hit.id == record.id->0 % 0x1_0000_0000
            &&& record.tab_position->0 <= usize::MAX ==> hit.tab_position == record.tab_position->0
            &&& hit.focused <==> record.is_focused == Some(true)
        },
{
}

proof fn lemma_hits_add(a: Seq<RecordView>, b: Seq<RecordView>)
    ensures
        hits_of(a + b) == hits_of(a) + hits_of(b),
    decreases b.len(),
{
    if b.len() == 0 {
        assert(a + b =~= a);
        assert(hits_of(a) + hits_of(b) =~= hits_of(a));
    } else {
        let rest = b.drop_last();
        lemma_hits_add(a, rest);
        assert((a + b).drop_last() =~= a + rest);
        assert((a + b).last() == b.last());
        assert(hits_of(a + b) =~= hits_of(a) + hits_of(b));
    }
}

/// Panes are found in the order in which they are listed: those of one listing before those
/// of another that follows it. A listing of one record has the pane that the record
/// describes, or none, and an empty one has none.
pub proof fn law_panes_are_found_in_order(
    a: Seq<RecordView>,
    b: Seq<RecordView>,
    record: RecordView,
)
    ensures
        hits_of(a + b) == hits_of(a) + hits_of(b),
        hits_of(Seq::<RecordView>::empty()) == Seq::<PaneHit>::empty(),
        hit_of(record) is None ==> hits_of(seq![record]) == Seq::<PaneHit>::empty(),
        hit_of(record) matches Some(hit) ==> hits_of(seq![record]) == seq![hit],
{
    lemma_hits_add(a, b);
    assert(seq![record].drop_last() =~= Seq::<RecordView>::empty());
    assert(hits_of(seq![record].drop_last()) =~= Seq::<PaneHit>::empty());
    if let Some(hit) = hit_of(record) {
        assert(hits_of(seq![record]) =~= seq![hit]);
    }
}

/// A listing is a JSON array with one object for each pane. The title is read from its text,
/// whether the pane has exited and has the focus from booleans, and its id and tab from
/// numbers; a member of another type counts as absent. What is no array lists nothing.
pub proof fn law_listing_is_read_by_member(
    panes: Seq<Json>,
    members: Map<Seq<char>, Json>,
    text: Seq<char>,
    value: bool,
    number: u64,
    document: Json,
)
    ensures
        listed(Some(Json::Array(panes))) == hits_of(
            Seq::new(panes.len(), |i: int| record_of(panes[i])),
        ),
        !(document is Array) ==> listed(Some(document)) == Seq::<PaneHit>::empty(),
        listed(None) == Seq::<PaneHit>::empty(),
        ({
            let record = record_of(Json::Object(members));
            &&& record.title == Some(text) <==> members.contains_key("title"@) && members["title"@]
                == Json::Text(text)
            &&& record.exited == Some(value) <==> members.contains_key("exited"@)
                && members["exited"@] == Json::Bool(value)
            &&& record.is_focused == Some(value) <==> members.contains_key("is_focused"@)
                && members["is_focused"@] == Json::Bool(value)
            &&& record.id == Some(number) <==> members.contains_key("id"@) && members["id"@]
                == Json::Number(Some(number))
            &&& record.tab_position == Some(number) <==> members.contains_key("tab_position"@)
                && members["tab_position"@] == Json::Number(Some(number))
        }),
        !(document is Object) ==> hit_of(record_of(document)) is None,
{
    assert(panes.map_values(|pane: Json| record_of(pane)) =~= Seq::new(
        panes.len(),
        |i: int| record_of(panes[i]),
    ));
}

/// The current tab is known where its description is an object whose position is a number,
/// and nowhere else.
pub proof fn law_position_is_read_by_member(document: Option<Json>, number: u64)
    ensures
        document matches Some(Json::Object(members)) ==> members.contains_key("position"@)
            && members["position"@] == Json::Number(Some(number)) && number <= usize::MAX
            ==> position_in(document) == Some(number as usize),
        position_in(document) is Some ==> (document matches Some(Json::Object(members))
            && members.contains_key("position"@) && members["position"@] is Number),
{
}

/// A jump goes to the first pane that is listed, whichever follow it, and closes none. It opens
/// one only where none is listed.
pub proof fn law_jump_goes_to_the_first(first: PaneHit, others: Seq<PaneHit>)
    ensures
        jumped(seq![first] + others) == Decision::Jump(first),
        jumped(Seq::<PaneHit>::empty()) == Decision::Open,
{
    assert((seq![first] + others)[0] == first);
}

/// A record says all its members.
pub proof fn law_record_says_all_its_members(record: PaneRecord)
    ensures
        record.title matches Some(title) ==> record@.title == Some(title@),
        record.title is None ==> record@.title is None,
        record@.exited == record.exited,
        record@.id == record.id,
        record@.tab_position == record.tab_position,
        record@.is_focused == record.is_focused,
{
}

/// A pane is found in a listing if and only if the listing is a JSON array with an object that
/// describes it. Where there is no listing, or none that can be read, no pane is found and no
/// tab is current.
pub proof fn law_outputs_are_read_as_json(bytes: Seq<u8>, hit: PaneHit)
    ensures
        panes_in(None).len() == 0,
        tab_in(None) is None,
        json_document(bytes) is None ==> panes_in(Some(bytes)).len() == 0 && tab_in(Some(bytes)) is None,
        json_document(bytes) matches Some(document) ==> !(document is Array) ==> panes_in(
            Some(bytes),
        ).len() == 0,
        json_document(bytes) matches Some(Json::Array(panes)) ==> (panes_in(Some(bytes)).contains(hit)
            <==> exists|i: int|
            0 <= i < panes.len() && hit_of(record_of(#[trigger] panes[i])) == Some(hit)),
        json_document(bytes) matches Some(document) ==> tab_in(Some(bytes)) == position_in(
            Some(document),
        ),
{
    if let Some(Json::Array(panes)) = json_document(bytes) {
        let records = panes.map_values(|pane: Json| record_of(pane));
        lemma_hits(records, hit);
        if exists|i: int| 0 <= i < panes.len() && hit_of(record_of(#[trigger] panes[i])) == Some(hit) {
            let i = choose|i: int|
                0 <= i < panes.len() && hit_of(record_of(#[trigger] panes[i])) == Some(hit);
            assert(hit_of(records[i]) == Some(hit));
        }
        if exists|i: int| 0 <= i < records.len() && hit_of(#[trigger] records[i]) == Some(hit) {
            let i = choose|i: int| 0 <= i < records.len() && hit_of(#[trigger] records[i]) == Some(hit);
            assert(hit_of(record_of(panes[i])) == Some(hit));
        }
    }
}

} // verus!
