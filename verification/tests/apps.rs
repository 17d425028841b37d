use ysos::apps::dinner::{
    init_safe_sync, jitter_ms, left_chopstick, remove_safe_sync, right_chopstick,
    starve_philosopher, init_starve_sync, remove_starve_sync, init_deadlock_sync, StarveRole,
    PHILOSOPHER_COUNT,
};
use ysos::apps::dinner_alt;
use ysos::apps::fish::{emit_once, emit_sequence, fish_key, fish_text, Fish, GT_PRINTS, LT_PRINTS, UNDERSCORE_PRINTS};
use ysos::apps::mq::{message_of, queue_init_calls, MessageQueue};
use ysos::shell::{parse_command, text_eq, words, Command};
use ysos::sync::{SemCall, SemOp, Semaphore};

#[test]
fn chopsticks_round_the_table() {
    assert_eq!(left_chopstick(4), 4);
    assert_eq!(right_chopstick(4), 0);
    assert_eq!(right_chopstick(1), 2);
    for id in 0..PHILOSOPHER_COUNT {
        let (first, second) = dinner_alt::ordered_chopsticks(id);
        assert!(first < second);
    }
    assert_eq!(dinner_alt::ordered_chopsticks(4), (0, 4));
    assert_eq!(dinner_alt::min(3, 5), 3);
    assert_eq!(dinner_alt::max(3, 5), 5);
}

#[test]
fn jitter_stays_between_20_and_49() {
    assert_eq!(jitter_ms(0, 0, 0, 0), 20);
    assert_eq!(jitter_ms(1000, 2, 1, 13), 20 + (1000 + 2 * 17 + 31 + 13) % 30);
    assert_eq!(dinner_alt::jitter_ms(1000, 2, 1, 11), 20 + (1000 + 2 * 19 + 37 + 11) % 30);
    // A seed below zero is taken modulo 30 upwards.
    assert_eq!(jitter_ms(-100, 0, 0, 0), 20 + 20);
    for now in -200i64..200 {
        let j = jitter_ms(now, 3, 2, 29);
        assert!((20..50).contains(&j));
    }
}

#[test]
fn dinner_setup_calls() {
    let init = init_safe_sync();
    assert_eq!(init.len(), 7);
    assert_eq!(init[0], SemCall { op: SemOp::New, key: 0x300, value: 1 });
    assert_eq!(init[4], SemCall { op: SemOp::New, key: 0x304, value: 1 });
    assert_eq!(init[5], SemCall { op: SemOp::New, key: 0x305, value: 4 });
    assert_eq!(init[6], SemCall { op: SemOp::New, key: 0x306, value: 1 });
    let rm = remove_safe_sync();
    assert_eq!(rm[5], SemCall { op: SemOp::Remove, key: 0x305, value: 0 });
    assert_eq!(init_starve_sync()[5], SemCall { op: SemOp::New, key: 0x315, value: 1 });
    assert_eq!(remove_starve_sync()[0], SemCall { op: SemOp::Remove, key: 0x310, value: 0 });
    assert_eq!(init_deadlock_sync()[2], SemCall { op: SemOp::New, key: 0x322, value: 1 });
    assert_eq!(dinner_alt::init_sync()[5], SemCall { op: SemOp::New, key: 0x505, value: 1 });
    assert_eq!(dinner_alt::remove_sync()[1], SemCall { op: SemOp::Remove, key: 0x501, value: 0 });
}

#[test]
fn starvation_roles() {
    assert_eq!(starve_philosopher(0), StarveRole::Starved);
    assert_eq!(starve_philosopher(4), StarveRole::Neighbor);
    assert_eq!(starve_philosopher(2), StarveRole::ShortGuest);
}

#[test]
fn fish_schedule_draws_fish_and_matches_the_children() {
    let seq = emit_sequence();
    let text: String = seq.iter().map(|t| fish_text(*t)).collect();
    assert_eq!(&text[..8], "<><_><>_");
    assert_eq!(seq.iter().filter(|t| **t == Fish::Lt).count(), LT_PRINTS);
    assert_eq!(seq.iter().filter(|t| **t == Fish::Gt).count(), GT_PRINTS);
    assert_eq!(seq.iter().filter(|t| **t == Fish::Underscore).count(), UNDERSCORE_PRINTS);
    assert_eq!(fish_key(Fish::Gt), 0x401);
    let (signal, wait) = emit_once(&Semaphore::new(0x400));
    assert_eq!(signal, SemCall { op: SemOp::Signal, key: 0x400, value: 0 });
    assert_eq!(wait, SemCall { op: SemOp::Wait, key: 0x403, value: 0 });
}

#[test]
fn message_queue_is_fifo_around_the_ring() {
    let mut q = MessageQueue::reset_queue(4);
    for round in 0..3 {
        for i in 0..4 {
            q.push_message(round * 10 + i);
        }
        assert_eq!(q.count(), 4);
        for i in 0..4 {
            assert_eq!(q.pop_message(), round * 10 + i);
        }
        assert_eq!(q.count(), 0);
    }
    let mut one = MessageQueue::reset_queue(1);
    one.push_message(message_of(7, 9));
    assert_eq!(one.pop_message(), 709);
    assert_eq!(queue_init_calls(8)[1], SemCall { op: SemOp::New, key: 0x201, value: 8 });
}

#[test]
fn shell_commands() {
    assert!(matches!(parse_command("   "), Command::Empty));
    assert!(matches!(parse_command("help"), Command::Help));
    assert!(matches!(parse_command(" list "), Command::List));
    assert!(matches!(parse_command("ls"), Command::Ls("/")));
    assert!(matches!(parse_command("ls /APP extra"), Command::Ls("/APP")));
    assert!(matches!(parse_command("cat"), Command::Cat(None)));
    assert!(matches!(parse_command("cat\t/A.TXT"), Command::Cat(Some("/A.TXT"))));
    assert!(matches!(parse_command("ps"), Command::Stat));
    assert!(matches!(parse_command("stat"), Command::Stat));
    assert!(matches!(parse_command("run /APP/FISH"), Command::Run(Some("/APP/FISH"))));
    assert!(matches!(parse_command("run"), Command::Run(None)));
    assert!(matches!(parse_command("exit now"), Command::Exit));
    assert!(matches!(parse_command("rm x"), Command::Unknown("rm")));
    assert_eq!(words("  a  bc\u{3000}d "), vec!["a", "bc", "d"]);
    assert!(text_eq("abc", "abc"));
    assert!(!text_eq("abc", "abd"));
}

#[test]
fn jitter_takes_any_seed_that_fits() {
    assert_eq!(jitter_ms(i64::MAX - 100, 0, 0, 0), 20 + (i64::MAX - 100).rem_euclid(30));
    assert_eq!(jitter_ms(i64::MIN + 10, 0, 0, -10), 20 + (i64::MIN).rem_euclid(30));
    assert_eq!(jitter_ms(0, 7, 5000, 0), 20 + (7 * 17 + 5000 * 31) % 30);
}
