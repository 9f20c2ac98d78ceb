use colek::walk::{Action, Event, Item, State, WalkDir};

#[test]
fn a_walk_begins_by_opening_its_root() {
    let walk = WalkDir::new("/data".to_string());
    assert_eq!(walk.root(), "/data");
    assert_eq!(walk.state(), State::Start);
    assert_eq!(walk.action(), Action::OpenRoot);
}

#[test]
fn a_root_that_cannot_be_opened_ends_the_walk() {
    let mut walk = WalkDir::new("/data".to_string());
    let item = walk.on_event(Event::Opened(Err("denied".to_string())));
    assert_eq!(item, Some(Item::Error("denied".to_string())));
    assert_eq!(walk.state(), State::Done);
    assert_eq!(walk.action(), Action::Stop);
    assert_eq!(walk.on_event(Event::Read(Ok(true))), None);
    assert_eq!(walk.state(), State::Done);
}

#[test]
fn an_empty_root_is_walked_at_once() {
    let mut walk = WalkDir::new("/data".to_string());
    assert_eq!(walk.on_event(Event::Opened(Ok(()))), None);
    assert_eq!(walk.state(), State::Walk { open: 1 });
    assert_eq!(walk.action(), Action::ReadNext);
    assert_eq!(walk.on_event(Event::Read(Ok(false))), None);
    assert_eq!(walk.state(), State::Walk { open: 0 });
    assert_eq!(walk.action(), Action::Stop);
}

#[test]
fn files_are_handed_on_once_their_type_is_known() {
    let mut walk = WalkDir::new("/data".to_string());
    walk.on_event(Event::Opened(Ok(())));
    assert_eq!(walk.on_event(Event::Read(Ok(true))), None);
    assert_eq!(walk.action(), Action::AskType);
    assert_eq!(walk.on_event(Event::Typed(Ok(false))), Some(Item::Entry));
    assert_eq!(walk.state(), State::Walk { open: 1 });
}

#[test]
fn directories_are_entered_and_handed_on() {
    let mut walk = WalkDir::new("/data".to_string());
    walk.on_event(Event::Opened(Ok(())));
    walk.on_event(Event::Read(Ok(true)));
    assert_eq!(walk.on_event(Event::Typed(Ok(true))), None);
    assert_eq!(walk.action(), Action::OpenEntry);
    assert_eq!(walk.on_event(Event::Opened(Ok(()))), Some(Item::Entry));
    assert_eq!(walk.state(), State::Walk { open: 2 });
    assert_eq!(walk.on_event(Event::Read(Ok(false))), None);
    assert_eq!(walk.state(), State::Walk { open: 1 });
    assert_eq!(walk.action(), Action::ReadNext);
}

#[test]
fn failures_are_handed_on_and_the_walk_goes_on() {
    let mut walk = WalkDir::new("/data".to_string());
    walk.on_event(Event::Opened(Ok(())));
    assert_eq!(
        walk.on_event(Event::Read(Err("bad read".to_string()))),
        Some(Item::Error("bad read".to_string()))
    );
    assert_eq!(walk.state(), State::Walk { open: 1 });
    walk.on_event(Event::Read(Ok(true)));
    assert_eq!(
        walk.on_event(Event::Typed(Err("broken link".to_string()))),
        Some(Item::Error("broken link".to_string()))
    );
    assert_eq!(walk.state(), State::Walk { open: 1 });
    walk.on_event(Event::Read(Ok(true)));
    walk.on_event(Event::Typed(Ok(true)));
    assert_eq!(
        walk.on_event(Event::Opened(Err("denied".to_string()))),
        Some(Item::Error("denied".to_string()))
    );
    assert_eq!(walk.state(), State::Walk { open: 1 });
    assert_eq!(walk.action(), Action::ReadNext);
}

#[test]
fn answers_that_were_not_asked_for_change_nothing() {
    let mut walk = WalkDir::new("/data".to_string());
    assert_eq!(walk.on_event(Event::Read(Ok(true))), None);
    assert_eq!(walk.on_event(Event::Typed(Err("x".to_string()))), None);
    assert_eq!(walk.state(), State::Start);
    walk.on_event(Event::Opened(Ok(())));
    assert_eq!(walk.on_event(Event::Opened(Ok(()))), None);
    assert_eq!(walk.on_event(Event::Typed(Ok(true))), None);
    assert_eq!(walk.state(), State::Walk { open: 1 });
    walk.on_event(Event::Read(Ok(false)));
    assert_eq!(walk.on_event(Event::Read(Err("late".to_string()))), None);
    assert_eq!(walk.on_event(Event::Read(Ok(false))), None);
    assert_eq!(walk.state(), State::Walk { open: 0 });
}
