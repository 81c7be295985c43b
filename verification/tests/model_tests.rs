use ticket_api::model::{ModelController, Ticket, TicketCreatePayload};
use ticket_api::{AppCtx, Error};

fn payload(title: &str) -> TicketCreatePayload {
    TicketCreatePayload { title: title.to_string() }
}

fn ids(tickets: &[Ticket]) -> Vec<u64> {
    tickets.iter().map(|t| t.id).collect()
}

#[test]
fn new_store_is_empty() {
    let mc = ModelController::new().unwrap();
    assert!(mc.list_tickets(AppCtx::new(1)).unwrap().is_empty());
}

#[test]
fn create_assigns_next_slot_and_creator() {
    let mut mc = ModelController::new().unwrap();
    let t0 = mc.create_ticket(AppCtx::new(7), payload("first")).unwrap();
    let t1 = mc.create_ticket(AppCtx::new(9), payload("second")).unwrap();
    assert_eq!((t0.id, t0.creator_id, t0.title.as_str()), (0, 7, "first"));
    assert_eq!((t1.id, t1.creator_id, t1.title.as_str()), (1, 9, "second"));
}

#[test]
fn list_after_create_appends_the_new_ticket() {
    let mut mc = ModelController::new().unwrap();
    mc.create_ticket(AppCtx::new(1), payload("a")).unwrap();
    let t = mc.create_ticket(AppCtx::new(2), payload("b")).unwrap();
    let listed = mc.list_tickets(AppCtx::new(1)).unwrap();
    assert_eq!(ids(&listed), vec![0, 1]);
    assert_eq!(listed[1].title, t.title);
    assert_eq!(listed[1].creator_id, 2);
}

#[test]
fn delete_returns_the_ticket_then_refuses_it() {
    let mut mc = ModelController::new().unwrap();
    mc.create_ticket(AppCtx::new(1), payload("a")).unwrap();
    mc.create_ticket(AppCtx::new(1), payload("b")).unwrap();
    let deleted = mc.delete_ticket(AppCtx::new(1), 1).unwrap();
    assert_eq!((deleted.id, deleted.title.as_str()), (1, "b"));
    assert_eq!(mc.delete_ticket(AppCtx::new(1), 1).unwrap_err(), Error::TicketDeleteFailedIdNotFound { id: 1 });
    assert_eq!(ids(&mc.list_tickets(AppCtx::new(1)).unwrap()), vec![0]);
}

#[test]
fn delete_unknown_id_is_refused_and_changes_nothing() {
    let mut mc = ModelController::new().unwrap();
    mc.create_ticket(AppCtx::new(1), payload("Hire me")).unwrap();
    assert_eq!(mc.delete_ticket(AppCtx::new(1), 1).unwrap_err(), Error::TicketDeleteFailedIdNotFound { id: 1 });
    assert_eq!(mc.delete_ticket(AppCtx::new(1), u64::MAX).unwrap_err(), Error::TicketDeleteFailedIdNotFound { id: u64::MAX });
    let listed = mc.list_tickets(AppCtx::new(1)).unwrap();
    assert_eq!(ids(&listed), vec![0]);
    assert_eq!(listed[0].title, "Hire me");
}

#[test]
fn deleted_numbers_are_not_reused() {
    let mut mc = ModelController::new().unwrap();
    mc.create_ticket(AppCtx::new(1), payload("a")).unwrap();
    mc.delete_ticket(AppCtx::new(1), 0).unwrap();
    let t = mc.create_ticket(AppCtx::new(1), payload("b")).unwrap();
    assert_eq!(t.id, 1);
    assert_eq!(ids(&mc.list_tickets(AppCtx::new(1)).unwrap()), vec![1]);
}

#[test]
fn delete_takes_only_that_ticket_out_of_the_list() {
    let mut mc = ModelController::new().unwrap();
    for title in ["a", "b", "c", "d"] {
        mc.create_ticket(AppCtx::new(3), payload(title)).unwrap();
    }
    mc.delete_ticket(AppCtx::new(3), 2).unwrap();
    let listed = mc.list_tickets(AppCtx::new(3)).unwrap();
    assert_eq!(ids(&listed), vec![0, 1, 3]);
    let titles: Vec<&str> = listed.iter().map(|t| t.title.as_str()).collect();
    assert_eq!(titles, vec!["a", "b", "d"]);
}

#[test]
fn ticket_clone_keeps_fields() {
    let t = Ticket { id: 4, creator_id: 5, title: "x".to_string() };
    let c = t.clone();
    assert_eq!((c.id, c.creator_id, c.title), (4, 5, "x".to_string()));
}

#[test]
fn deleted_id_stays_refused_after_other_calls() {
    let mut mc = ModelController::new().unwrap();
    for title in ["a", "b", "c"] {
        mc.create_ticket(AppCtx::new(1), payload(title)).unwrap();
    }
    mc.delete_ticket(AppCtx::new(1), 1).unwrap();
    mc.create_ticket(AppCtx::new(2), payload("d")).unwrap();
    mc.delete_ticket(AppCtx::new(1), 0).unwrap();
    mc.list_tickets(AppCtx::new(1)).unwrap();
    assert_eq!(mc.delete_ticket(AppCtx::new(1), 1).unwrap_err(), Error::TicketDeleteFailedIdNotFound { id: 1 });
    assert_eq!(ids(&mc.list_tickets(AppCtx::new(1)).unwrap()), vec![2, 3]);
}
