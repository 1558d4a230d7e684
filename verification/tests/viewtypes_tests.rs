use overlay_core::players::{
    follow_parent, instant_ladder, is_damaged, is_other_player, ParentStep,
};
use overlay_core::settings::Latest;
use overlay_core::viewtypes::{DrawQueue, ObjectType};

#[test]
fn queue_hands_over_a_frame_and_is_empty() {
    let mut queue: DrawQueue<(u32, ObjectType)> = DrawQueue::new();
    assert_eq!(queue.len(), 0);
    queue.push((1, ObjectType::Circle));
    queue.push((2, ObjectType::Box));
    queue.push((3, ObjectType::Text));
    assert_eq!(queue.len(), 3);
    let mut frame = vec![(9, ObjectType::Text)];
    queue.take_frame(&mut frame);
    assert_eq!(frame, vec![(1, ObjectType::Circle), (2, ObjectType::Box), (3, ObjectType::Text)]);
    assert_eq!(queue.len(), 0);
}

#[test]
fn an_instruction_is_drawn_in_one_frame_only() {
    let mut queue: DrawQueue<&str> = DrawQueue::new();
    let mut frame = Vec::new();
    queue.push("a");
    queue.take_frame(&mut frame);
    assert_eq!(frame, vec!["a"]);
    queue.take_frame(&mut frame);
    assert!(frame.is_empty());
    queue.push("b");
    queue.push("c");
    queue.take_frame(&mut frame);
    assert_eq!(frame, vec!["b", "c"]);
}

#[test]
fn object_types_differ() {
    assert_ne!(ObjectType::Circle, ObjectType::Box);
    assert_ne!(ObjectType::Box, ObjectType::Text);
    assert_ne!(ObjectType::Circle, ObjectType::Text);
}

#[test]
fn parent_walk_ends_at_null_or_at_a_self_parent() {
    assert_eq!(follow_parent(0x10, 0x20), ParentStep::Follow(0x20));
    assert_eq!(follow_parent(0x10, 0), ParentStep::Owner(0x10));
    assert_eq!(follow_parent(0x10, 0x10), ParentStep::Owner(0x10));
    assert_eq!(follow_parent(0, 0), ParentStep::Owner(0));
}

#[test]
fn parent_walk_reaches_the_owner() {
    // a chain of parents: 1 -> 2 -> 3 -> null
    let parent_of = |actor: u64| if actor < 3 { actor + 1 } else { 0 };
    let mut actor = 1;
    let owner = loop {
        match follow_parent(actor, parent_of(actor)) {
            ParentStep::Follow(next) => actor = next,
            ParentStep::Owner(owner) => break owner,
        }
    };
    assert_eq!(owner, 3);
}

#[test]
fn own_pawn_and_undamaged_zones_are_left_out() {
    assert!(is_other_player(0x10, 0x20));
    assert!(!is_other_player(0x10, 0x10));
    assert!(is_damaged(1));
    assert!(is_damaged(i32::MAX));
    assert!(!is_damaged(0));
    assert!(!is_damaged(-1));
}

#[test]
fn newest_record_replaces_the_whole_record() {
    let mut latest = Latest::new((true, 1.5f32, 8i32));
    assert_eq!(*latest.get(), (true, 1.5, 8));
    latest.offer(None);
    assert_eq!(*latest.get(), (true, 1.5, 8));
    latest.offer(Some((false, 1.0, 2)));
    assert_eq!(*latest.get(), (false, 1.0, 2));
    latest.offer(Some((true, 2.0, 3)));
    latest.offer(None);
    assert_eq!(*latest.get(), (true, 2.0, 3));
}

#[test]
fn the_ladder_hook_does_nothing() {
    instant_ladder();
}
