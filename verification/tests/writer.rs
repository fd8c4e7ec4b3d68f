use case_variants::generate::{generate_combinations, total_combinations};
use case_variants::lines::render_line;
use case_variants::progress::{new_counter, sample};
use case_variants::writer::{total_batches, write_target, WritePlan, WriteStep, BATCH_SIZE};

fn run_plan(total: usize) -> (Vec<WriteStep>, usize, usize) {
    let counter = new_counter();
    let mut plan = WritePlan::new(total).expect("target fits");
    let mut steps = Vec::new();
    loop {
        let next = plan.peek();
        let taken = plan.advance(&counter);
        assert_eq!(next, taken);
        if taken == WriteStep::Done {
            break;
        }
        steps.push(taken);
        assert_eq!(plan.progress(), steps.len());
        assert_eq!(sample(&counter), steps.len());
    }
    (steps, plan.progress(), sample(&counter))
}

fn write_all(lines: &[String]) -> String {
    let counter = new_counter();
    let mut plan = WritePlan::new(lines.len()).expect("target fits");
    let mut text = String::new();
    loop {
        match plan.advance(&counter) {
            WriteStep::Line(i) => text.push_str(&render_line(&lines[i])),
            WriteStep::Flush => {}
            WriteStep::Done => break,
        }
    }
    text
}

#[test]
fn batch_size_is_ten_thousand() {
    assert_eq!(BATCH_SIZE, 10_000);
}

#[test]
fn total_batches_rounds_up() {
    assert_eq!(total_batches(0), 0);
    assert_eq!(total_batches(1), 1);
    assert_eq!(total_batches(9_999), 1);
    assert_eq!(total_batches(10_000), 1);
    assert_eq!(total_batches(10_001), 2);
    assert_eq!(total_batches(1 << 20), 105);
    assert_eq!(total_batches(usize::MAX), usize::MAX / 10_000 + 1);
}

#[test]
fn write_target_counts_lines_and_flushes() {
    assert_eq!(write_target(0), Some(0));
    assert_eq!(write_target(1), Some(2));
    assert_eq!(write_target(4), Some(5));
    assert_eq!(write_target(10_000), Some(10_001));
    assert_eq!(write_target(10_001), Some(10_003));
    assert_eq!(write_target(16_384), Some(16_386));
    assert_eq!(write_target(1 << 20), Some((1 << 20) + 105));
}

#[test]
fn write_target_refuses_what_does_not_fit() {
    assert_eq!(write_target(usize::MAX), None);
    assert!(WritePlan::new(usize::MAX).is_none());
    assert!(WritePlan::new(usize::MAX - 1).is_none());
    assert!(WritePlan::new(usize::MAX / 2).is_some());
}

#[test]
fn plan_for_nothing_is_done_at_once() {
    let (steps, units, counted) = run_plan(0);
    assert!(steps.is_empty());
    assert_eq!(units, 0);
    assert_eq!(counted, 0);
}

#[test]
fn plan_for_one_line_writes_then_flushes() {
    let (steps, units, counted) = run_plan(1);
    assert_eq!(steps, vec![WriteStep::Line(0), WriteStep::Flush]);
    assert_eq!(units, 2);
    assert_eq!(counted, 2);
}

#[test]
fn plan_flushes_after_each_full_batch_and_after_the_last() {
    let (steps, units, _) = run_plan(10_001);
    assert_eq!(steps.len(), 10_003);
    for i in 0..10_000 {
        assert_eq!(steps[i], WriteStep::Line(i));
    }
    assert_eq!(steps[10_000], WriteStep::Flush);
    assert_eq!(steps[10_001], WriteStep::Line(10_000));
    assert_eq!(steps[10_002], WriteStep::Flush);
    assert_eq!(units, 10_003);
}

#[test]
fn plan_does_not_flush_twice_at_a_full_last_batch() {
    let (steps, units, _) = run_plan(20_000);
    let flushes: Vec<usize> =
        steps.iter().enumerate().filter(|(_, s)| **s == WriteStep::Flush).map(|(k, _)| k).collect();
    assert_eq!(flushes, vec![10_000, 20_001]);
    assert_eq!(units, 20_002);
}

#[test]
fn plan_stays_done() {
    let counter = new_counter();
    let mut plan = WritePlan::new(1).unwrap();
    assert_eq!(plan.advance(&counter), WriteStep::Line(0));
    assert_eq!(plan.advance(&counter), WriteStep::Flush);
    assert_eq!(plan.advance(&counter), WriteStep::Done);
    assert_eq!(plan.advance(&counter), WriteStep::Done);
    assert_eq!(plan.peek(), WriteStep::Done);
    assert_eq!(plan.progress(), 2);
    assert_eq!(sample(&counter), 2);
}

#[test]
fn write_counter_ends_at_lines_plus_batches() {
    for length in 0..=15usize {
        let total = 1usize << length;
        let (steps, units, counted) = run_plan(total);
        let expected = total + (total + BATCH_SIZE - 1) / BATCH_SIZE;
        assert_eq!(units, expected);
        assert_eq!(counted, expected);
        assert_eq!(Some(expected), write_target(total));
        let lines: Vec<usize> = steps
            .iter()
            .filter_map(|s| match s {
                WriteStep::Line(i) => Some(*i),
                _ => None,
            })
            .collect();
        assert_eq!(lines, (0..total).collect::<Vec<usize>>());
    }
}

#[test]
fn render_line_ends_the_line() {
    assert_eq!(render_line("aB"), "aB\n");
    assert_eq!(render_line(""), "\n");
}

#[test]
fn file_of_two_letters() {
    let total = total_combinations(2).unwrap();
    let lines = generate_combinations("ab", total, new_counter());
    assert_eq!(write_all(&lines), "ab\nAb\naB\nAB\n");
}

#[test]
fn file_of_the_empty_input_is_one_empty_line() {
    let total = total_combinations(0).unwrap();
    let lines = generate_combinations("", total, new_counter());
    let text = write_all(&lines);
    assert_eq!(text, "\n");
    assert_eq!(text.lines().collect::<Vec<&str>>(), vec![""]);
}

#[test]
fn file_reads_back_as_it_was_written() {
    for input in ["", "a", "ab", "a1", "Hello, World", "x y z"] {
        let total = total_combinations(input.chars().count()).unwrap();
        let lines = generate_combinations(input, total, new_counter());
        let text = write_all(&lines);
        let read: Vec<String> = text.lines().map(|s| s.to_string()).collect();
        assert_eq!(read, lines);
    }
}
