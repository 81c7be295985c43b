use vstd::prelude::*;

use crate::appctx::AppCtx;
use crate::error::Error;

verus! {

/// A ticket: its number in the store, who created it, and its title.
#[derive(Debug)]
pub struct Ticket {
    pub id: u64,
    pub creator_id: u64,
    pub title: String,
}

impl Clone for Ticket {
    fn clone(&self) -> (t: Self)
        ensures
            t == *self,
    {
        Ticket { id: self.id, creator_id: self.creator_id, title: self.title.clone() }
    }
}

/// What a client sends to create a ticket.
pub struct TicketCreatePayload {
    pub title: String,
}

/// Every slot of the store that holds a ticket holds the ticket with that slot's number.
pub open spec fn store_wf(store: Seq<Option<Ticket>>) -> bool {
    forall|i: int| 0 <= i < store.len() && (#[trigger] store[i]) is Some ==> store[i]->0.id == i
}

/// The tickets of the store that have not been deleted, in the order of their slots.
pub open spec fn live_tickets(store: Seq<Option<Ticket>>) -> Seq<Ticket>
    decreases store.len(),
{
    if store.len() == 0 {
        Seq::empty()
    } else {
        let rest = live_tickets(store.drop_last());
        match store.last() {
            Some(t) => rest.push(t),
            None => rest,
        }
    }
}

/// The ticket that a creation on `store` makes: it takes the next slot.
pub open spec fn created_ticket(store: Seq<Option<Ticket>>, creator_id: u64, title: String) -> Ticket {
    Ticket { id: store.len() as u64, creator_id, title }
}

/// What deleting ticket `id` from `store` answers.
pub open spec fn deleted_ticket(store: Seq<Option<Ticket>>, id: u64) -> Result<Ticket, Error> {
    if id < store.len() && store[id as int] is Some {
        Ok(store[id as int]->0)
    } else {
        Err(Error::TicketDeleteFailedIdNotFound { id })
    }
}

/// The store after deleting ticket `id`: that slot is emptied, if there is one.
pub open spec fn store_after_delete(store: Seq<Option<Ticket>>, id: u64) -> Seq<Option<Ticket>> {
    if id < store.len() {
        store.update(id as int, None)
    } else {
        store
    }
}

/// Every slot of `before` that is empty is still there, and still empty, in `after`:
/// what the store's operations keep, call after call.
pub open spec fn emptied_slots_stay_empty(before: Seq<Option<Ticket>>, after: Seq<Option<Ticket>>) -> bool {
    forall|i: int| 0 <= i < before.len() && (#[trigger] before[i]) is None ==> i < after.len() && after[i] is None
}

/// The store of tickets. A deleted ticket leaves its slot empty, so a ticket's
/// number is never given to another.
pub struct ModelController {
    tickets_store: Vec<Option<Ticket>>,
}

impl View for ModelController {
    type V = Seq<Option<Ticket>>;

    closed spec fn view(&self) -> Seq<Option<Ticket>> {
        self.tickets_store@
    }
}

impl ModelController {
    #[verifier::type_invariant]
    closed spec fn inv(self) -> bool {
        store_wf(self.tickets_store@)
    }

    /// An empty store.
    pub fn new() -> (r: Result<Self, Error>)
        ensures
            r matches Ok(m) && m@ == Seq::<Option<Ticket>>::empty() && store_wf(m@),
    {
        Ok(Self { tickets_store: Vec::new() })
    }

    /// Creates a ticket for the user of `app_ctx` in the next slot and returns it.
    pub fn create_ticket(&mut self, app_ctx: AppCtx, ticket_payload: TicketCreatePayload) -> (r: Result<Ticket, Error>)
        ensures
            r == Ok::<Ticket, Error>(created_ticket(old(self)@, app_ctx.spec_user_id(), ticket_payload.title)),
            r matches Ok(t) && t.id == old(self)@.len() && t.creator_id == app_ctx.spec_user_id()
                && t.title == ticket_payload.title,
            final(self)@.len() == old(self)@.len() + 1,
            final(self)@.last() == r.ok(),
            forall|i: int| 0 <= i < old(self)@.len() ==> final(self)@[i] == old(self)@[i],
            final(self)@ == old(self)@.push(Some(created_ticket(old(self)@, app_ctx.spec_user_id(), ticket_payload.title))),
            store_wf(old(self)@),
            store_wf(final(self)@),
            emptied_slots_stay_empty(old(self)@, final(self)@),
    {
        proof {
            use_type_invariant(&*self);
        }
        let mut store: Vec<Option<Ticket>> = Vec::new();
        std::mem::swap(&mut store, &mut self.tickets_store);
        let id: u64 = store.len() as u64;
        let ticket = Ticket { id, creator_id: app_ctx.user_id(), title: ticket_payload.title };
        store.push(Some(ticket.clone()));
        self.tickets_store = store;
        Ok(ticket)
    }

    /// The tickets that have not been deleted, in the order they were created.
    pub fn list_tickets(&self, _app_ctx: AppCtx) -> (r: Result<Vec<Ticket>, Error>)
        ensures
            r matches Ok(v) && v@ == live_tickets(self@),
            r matches Ok(v) && forall|t: Ticket| v@.contains(t) <==> (exists|i: int| 0 <= i < self@.len() && self@[i] == Some(t)),
            store_wf(self@),
    {
        proof {
            use_type_invariant(self);
        }
        let store = &self.tickets_store;
        let mut tickets: Vec<Ticket> = Vec::new();
        let mut i: usize = 0;
        while i < store.len()
            invariant
                i <= store@.len(),
                tickets@ == live_tickets(store@.take(i as int)),
            decreases store@.len() - i,
        {
            assert(store@.take(i + 1).drop_last() =~= store@.take(i as int));
            match &store[i] {
                Some(t) => tickets.push(t.clone()),
                None => {},
            }
            i = i + 1;
        }
        assert(store@.take(store@.len() as int) =~= store@);
        assert forall|t: Ticket| tickets@.contains(t) <==> (exists|i: int| 0 <= i < self@.len() && self@[i] == Some(t)) by {
            law_listed_iff_stored(self@, t);
        }
        Ok(tickets)
    }

    /// Deletes ticket `id` and returns it, or says that there is no such ticket.
    pub fn delete_ticket(&mut self, _app_ctx: AppCtx, id: u64) -> (r: Result<Ticket, Error>)
        ensures
            r == deleted_ticket(old(self)@, id),
            final(self)@ == store_after_delete(old(self)@, id),
            r matches Ok(t) ==> id < old(self)@.len() && old(self)@[id as int] == Some(t) && t.id == id,
            r is Err <==> (id >= old(self)@.len() || old(self)@[id as int] is None),
            r is Err ==> r == Err::<Ticket, Error>(Error::TicketDeleteFailedIdNotFound { id }),
            final(self)@.len() == old(self)@.len(),
            forall|i: int| 0 <= i < old(self)@.len() && i != id ==> final(self)@[i] == old(self)@[i],
            id < old(self)@.len() ==> final(self)@[id as int] is None,
            store_wf(old(self)@),
            store_wf(final(self)@),
            emptied_slots_stay_empty(old(self)@, final(self)@),
    {
        proof {
            use_type_invariant(&*self);
        }
        let len: usize = self.tickets_store.len();
        if id < len as u64 {
            let i: usize = id as usize;
            let mut store: Vec<Option<Ticket>> = Vec::new();
            std::mem::swap(&mut store, &mut self.tickets_store);
            let mut slot: Option<Ticket> = None;
            store.set_and_swap(i, &mut slot);
            self.tickets_store = store;
            match slot {
                Some(t) => Ok(t),
                None => Err(Error::TicketDeleteFailedIdNotFound { id }),
            }
        } else {
            Err(Error::TicketDeleteFailedIdNotFound { id })
        }
    }
}

proof fn lemma_live_push(store: Seq<Option<Ticket>>, slot: Option<Ticket>)
    ensures
        live_tickets(store.push(slot)) == match slot {
            Some(t) => live_tickets(store).push(t),
            None => live_tickets(store),
        },
{
    assert(store.push(slot).drop_last() =~= store);
}

proof fn lemma_wf_prefix(store: Seq<Option<Ticket>>)
    requires
        store_wf(store),
        store.len() > 0,
    ensures
        store_wf(store.drop_last()),
{
    assert forall|i: int| 0 <= i < store.drop_last().len() && (#[trigger] store.drop_last()[i]) is Some
        implies store.drop_last()[i]->0.id == i by {
        assert(store.drop_last()[i] == store[i]);
    }
}

proof fn lemma_filter_push(s: Seq<Ticket>, t: Ticket, id: u64)
    ensures
        s.push(t).filter(|x: Ticket| x.id != id) == if t.id != id {
            s.filter(|x: Ticket| x.id != id).push(t)
        } else {
            s.filter(|x: Ticket| x.id != id)
        },
{
    reveal_with_fuel(Seq::<_>::filter, 1);
    assert(s.push(t).drop_last() =~= s);
}

proof fn lemma_filter_keeps_all(s: Seq<Ticket>, id: u64)
    requires
        forall|k: int| 0 <= k < s.len() ==> (#[trigger] s[k]).id != id,
    ensures
        s.filter(|x: Ticket| x.id != id) == s,
    decreases s.len(),
{
    if s.len() > 0 {
        let init = s.drop_last();
        assert forall|k: int| 0 <= k < init.len() implies (#[trigger] init[k]).id != id by {
            assert(init[k] == s[k]);
        }
        lemma_filter_keeps_all(init, id);
        lemma_filter_push(init, s.last(), id);
        assert(init.push(s.last()) =~= s);
    } else {
        reveal_with_fuel(Seq::<_>::filter, 1);
    }
}

/// The tickets that a well-formed store lists carry numbers below its length, and
/// in strictly increasing order: numbers are unique, and the list is in creation order.
pub proof fn law_listed_ids_increase(store: Seq<Option<Ticket>>)
    requires
        store_wf(store),
    ensures
        forall|k: int| 0 <= k < live_tickets(store).len() ==> (#[trigger] live_tickets(store)[k]).id < store.len(),
        forall|i: int, j: int| 0 <= i < j < live_tickets(store).len()
            ==> (#[trigger] live_tickets(store)[i]).id < (#[trigger] live_tickets(store)[j]).id,
    decreases store.len(),
{
    if store.len() > 0 {
        let init = store.drop_last();
        lemma_wf_prefix(store);
        law_listed_ids_increase(init);
        assert(init.push(store.last()) =~= store);
        lemma_live_push(init, store.last());
        if store.last() is Some {
            assert(store[store.len() - 1] == store.last());
        }
    }
}

/// Listing after a creation gives the list from before, with the new ticket at its end.
pub proof fn law_list_after_create(store: Seq<Option<Ticket>>, creator_id: u64, title: String)
    ensures
        live_tickets(store.push(Some(created_ticket(store, creator_id, title))))
            == live_tickets(store).push(created_ticket(store, creator_id, title)),
{
    lemma_live_push(store, Some(created_ticket(store, creator_id, title)));
}

/// Deleting the ticket that a creation made returns that ticket, and the list is then
/// as it was before the creation.
pub proof fn law_delete_after_create(store: Seq<Option<Ticket>>, creator_id: u64, title: String)
    requires
        store.len() <= u64::MAX,
    ensures
        ({
            let t = created_ticket(store, creator_id, title);
            let grown = store.push(Some(t));
            &&& deleted_ticket(grown, t.id) == Ok::<Ticket, Error>(t)
            &&& live_tickets(store_after_delete(grown, t.id)) == live_tickets(store)
        }),
{
    let t = created_ticket(store, creator_id, title);
    let grown = store.push(Some(t));
    assert(grown[store.len() as int] == Some(t));
    assert(store_after_delete(grown, t.id) =~= store.push(None));
    lemma_live_push(store, None);
}

/// A ticket can be deleted once: deleting it again is refused.
pub proof fn law_delete_twice(store: Seq<Option<Ticket>>, id: u64)
    requires
        deleted_ticket(store, id) is Ok,
    ensures
        deleted_ticket(store_after_delete(store, id), id)
            == Err::<Ticket, Error>(Error::TicketDeleteFailedIdNotFound { id }),
{
}

/// Keeping emptied slots empty holds across any sequence of calls.
pub proof fn law_emptied_slots_stay_empty_across_calls(
    a: Seq<Option<Ticket>>,
    b: Seq<Option<Ticket>>,
    c: Seq<Option<Ticket>>,
)
    requires
        emptied_slots_stay_empty(a, b),
        emptied_slots_stay_empty(b, c),
    ensures
        emptied_slots_stay_empty(a, c),
{
    assert forall|i: int| 0 <= i < a.len() && (#[trigger] a[i]) is None implies i < c.len() && c[i] is None by {
        assert(b[i] is None);
    }
}

/// A ticket can be deleted once: after it was deleted, every later deletion of its
/// number, whatever calls came between, is refused and leaves the store as it is.
pub proof fn law_deleted_id_stays_refused(before: Seq<Option<Ticket>>, later: Seq<Option<Ticket>>, id: u64)
    requires
        deleted_ticket(before, id) is Ok,
        emptied_slots_stay_empty(store_after_delete(before, id), later),
    ensures
        deleted_ticket(later, id) == Err::<Ticket, Error>(Error::TicketDeleteFailedIdNotFound { id }),
        store_after_delete(later, id) == later,
{
    let emptied = store_after_delete(before, id);
    assert(emptied[id as int] is None);
    assert(later[id as int] is None);
    assert(later.update(id as int, None) =~= later);
}

/// A refused deletion leaves the store as it was.
pub proof fn law_failed_delete_keeps_store(store: Seq<Option<Ticket>>, id: u64)
    requires
        deleted_ticket(store, id) is Err,
    ensures
        store_after_delete(store, id) == store,
{
    if id < store.len() {
        assert(store.update(id as int, None) =~= store);
    }
}

/// The ticket that a deletion returns is the one with the number asked for.
pub proof fn law_deleted_ticket_has_its_id(store: Seq<Option<Ticket>>, id: u64)
    requires
        store_wf(store),
        deleted_ticket(store, id) is Ok,
    ensures
        deleted_ticket(store, id)->Ok_0.id == id,
{
}

/// Deleting ticket `id` takes that ticket out of the list and leaves every other
/// listed ticket where it was.
pub proof fn law_list_after_delete(store: Seq<Option<Ticket>>, id: u64)
    requires
        store_wf(store),
    ensures
        live_tickets(store_after_delete(store, id)) == live_tickets(store).filter(|x: Ticket| x.id != id),
    decreases store.len(),
{
    law_listed_ids_increase(store);
    if store.len() == 0 {
        lemma_filter_keeps_all(live_tickets(store), id);
    } else {
        let init = store.drop_last();
        let last = store.last();
        lemma_wf_prefix(store);
        assert(init.push(last) =~= store);
        lemma_live_push(init, last);
        law_listed_ids_increase(init);
        if id < init.len() {
            law_list_after_delete(init, id);
            assert(store_after_delete(store, id) =~= store_after_delete(init, id).push(last));
            lemma_live_push(store_after_delete(init, id), last);
            if last is Some {
                assert(store[store.len() - 1] == last);
                lemma_filter_push(live_tickets(init), last->0, id);
            }
        } else if id == init.len() {
            assert(store_after_delete(store, id) =~= init.push(None));
            lemma_live_push(init, None);
            lemma_filter_keeps_all(live_tickets(init), id);
            if last is Some {
                assert(store[store.len() - 1] == last);
                lemma_filter_push(live_tickets(init), last->0, id);
            }
        } else {
            lemma_filter_keeps_all(live_tickets(store), id);
        }
    }
}

/// A created ticket takes the next number, is credited to the requesting user and
/// carries the payload's title, for every store, user and title.
pub proof fn law_created_ticket_fields(store: Seq<Option<Ticket>>, creator_id: u64, title: String)
    requires
        store.len() <= u64::MAX,
    ensures
        created_ticket(store, creator_id, title).id == store.len(),
        created_ticket(store, creator_id, title).creator_id == creator_id,
        created_ticket(store, creator_id, title).title == title,
{
}

/// A successful deletion returns the ticket exactly as the store held it in that slot,
/// and a refused one happens exactly when the slot is missing or empty.
pub proof fn law_deleted_ticket_is_the_stored_one(store: Seq<Option<Ticket>>, id: u64)
    ensures
        deleted_ticket(store, id) is Ok ==> id < store.len() && store[id as int] == Some(deleted_ticket(store, id)->Ok_0),
        deleted_ticket(store, id) is Err <==> (id >= store.len() || store[id as int] is None),
        deleted_ticket(store, id) is Err ==> deleted_ticket(store, id) == Err::<Ticket, Error>(Error::TicketDeleteFailedIdNotFound { id }),
{
}

/// Deletion empties exactly the slot asked for and keeps every other slot and the length.
pub proof fn law_delete_touches_one_slot(store: Seq<Option<Ticket>>, id: u64)
    ensures
        store_after_delete(store, id).len() == store.len(),
        forall|i: int| 0 <= i < store.len() && i != id ==> store_after_delete(store, id)[i] == store[i],
        id < store.len() ==> store_after_delete(store, id)[id as int] is None,
{
}

/// A ticket is listed exactly when some slot of the store holds it.
pub proof fn law_listed_iff_stored(store: Seq<Option<Ticket>>, t: Ticket)
    ensures
        live_tickets(store).contains(t) <==> (exists|i: int| 0 <= i < store.len() && store[i] == Some(t)),
    decreases store.len(),
{
    if store.len() > 0 {
        let init = store.drop_last();
        law_listed_iff_stored(init, t);
        lemma_live_push(init, store.last());
        assert(init.push(store.last()) =~= store);
        if exists|i: int| 0 <= i < store.len() && store[i] == Some(t) {
            let i = choose|i: int| 0 <= i < store.len() && store[i] == Some(t);
            if i < init.len() {
                assert(init[i] == store[i]);
                let k = choose|k: int| 0 <= k < live_tickets(init).len() && live_tickets(init)[k] == t;
                if store.last() is Some {
                    assert(live_tickets(store)[k] == t);
                }
            } else {
                assert(live_tickets(store).last() == t);
            }
        }
        if live_tickets(store).contains(t) {
            let k = choose|k: int| 0 <= k < live_tickets(store).len() && live_tickets(store)[k] == t;
            if k < live_tickets(init).len() {
                assert(live_tickets(init)[k] == t);
                let i = choose|i: int| 0 <= i < init.len() && init[i] == Some(t);
                assert(store[i] == init[i]);
            } else {
                assert(store[store.len() - 1] == Some(t));
            }
        }
    }
}

} // verus!
