use task_fanout::collect_records;
use task_fanout::dedup_tasks;
use task_fanout::outcome_of_http;
use task_fanout::ExecutionOutcome;
use task_fanout::HttpResult;
use task_fanout::InputTask;
use task_fanout::TaskStatus;

fn task(id: u64) -> InputTask {
    InputTask {
        task_id: id,
        task_type: String::from("standard"),
    }
}

#[test]
fn scenario_all_succeed() {
    let tasks = vec![task(1), task(2), task(2), task(3)];
    let ids = dedup_tasks(&tasks);
    assert_eq!(ids, vec![1, 2, 3]);
    let pairs: Vec<(u64, ExecutionOutcome)> =
        ids.iter().map(|&id| (id, ExecutionOutcome::Success)).collect();
    let records = collect_records(&pairs);
    assert_eq!(records.len(), 3);
    for (r, &id) in records.iter().zip(ids.iter()) {
        assert_eq!(r.task_id, id);
        assert_eq!(r.final_status, TaskStatus::Completed);
        assert_eq!(r.error_info, "");
    }
}

#[test]
fn scenario_single_task_bad_status() {
    let tasks = vec![task(5)];
    let ids = dedup_tasks(&tasks);
    assert_eq!(ids, vec![5]);
    let outcome = outcome_of_http(HttpResult::Status(500));
    let pairs = vec![(5u64, outcome)];
    let records = collect_records(&pairs);
    assert_eq!(records.len(), 1);
    assert_eq!(records[0].task_id, 5);
    assert_eq!(records[0].final_status, TaskStatus::Failed);
    assert_eq!(records[0].error_info, "HTTP request returned status: 500");
}

#[test]
fn scenario_empty_input() {
    let tasks: Vec<InputTask> = Vec::new();
    let ids = dedup_tasks(&tasks);
    assert!(ids.is_empty());
    let pairs: Vec<(u64, ExecutionOutcome)> = Vec::new();
    let records = collect_records(&pairs);
    assert!(records.is_empty());
}

#[test]
fn scenario_one_failure_among_successes() {
    let tasks = vec![task(10), task(11), task(12)];
    let ids = dedup_tasks(&tasks);
    let pairs: Vec<(u64, ExecutionOutcome)> = ids
        .iter()
        .map(|&id| {
            if id == 11 {
                (id, ExecutionOutcome::Failure(String::from("HTTP request failed: timeout")))
            } else {
                (id, ExecutionOutcome::Success)
            }
        })
        .collect();
    let records = collect_records(&pairs);
    assert_eq!(records.len(), 3);
    for r in &records {
        if r.task_id == 11 {
            assert_eq!(r.final_status, TaskStatus::Failed);
            assert_eq!(r.error_info, "HTTP request failed: timeout");
        } else {
            assert_eq!(r.final_status, TaskStatus::Completed);
            assert_eq!(r.error_info, "");
        }
    }
}

#[test]
fn dedup_one_record_per_repeated_id() {
    let tasks = vec![task(7), task(7), task(7), task(8)];
    let ids = dedup_tasks(&tasks);
    let pairs: Vec<(u64, ExecutionOutcome)> =
        ids.iter().map(|&id| (id, ExecutionOutcome::Success)).collect();
    let records = collect_records(&pairs);
    let sevens = records.iter().filter(|r| r.task_id == 7).count();
    let eights = records.iter().filter(|r| r.task_id == 8).count();
    assert_eq!(sevens, 1);
    assert_eq!(eights, 1);
    assert_eq!(records.len(), 2);
}

#[test]
fn completeness_no_task_dropped_or_duplicated() {
    let tasks = vec![task(3), task(1), task(2), task(1), task(3), task(3)];
    let ids = dedup_tasks(&tasks);
    for wanted in [1u64, 2, 3] {
        assert_eq!(ids.iter().filter(|&&id| id == wanted).count(), 1);
    }
    assert_eq!(ids.len(), 3);
}

#[test]
fn dedup_keeps_no_duplicates() {
    let tasks = vec![task(4), task(4), task(9), task(4), task(9)];
    let ids = dedup_tasks(&tasks);
    for i in 0..ids.len() {
        for j in 0..ids.len() {
            if i != j {
                assert_ne!(ids[i], ids[j]);
            }
        }
    }
    assert_eq!(ids, vec![4, 9]);
}

#[test]
fn status_error_info_coupling() {
    let pairs = vec![
        (1u64, ExecutionOutcome::Success),
        (2u64, outcome_of_http(HttpResult::Status(404))),
        (3u64, outcome_of_http(HttpResult::TransportError(String::from("refused")))),
    ];
    let records = collect_records(&pairs);
    for r in &records {
        match r.final_status {
            TaskStatus::Completed => assert_eq!(r.error_info, ""),
            TaskStatus::Failed => assert!(!r.error_info.is_empty()),
        }
    }
}

#[test]
fn failure_of_one_task_leaves_others_unchanged() {
    let all_good = vec![
        (1u64, ExecutionOutcome::Success),
        (2u64, ExecutionOutcome::Success),
        (3u64, ExecutionOutcome::Success),
    ];
    let one_bad = vec![
        (1u64, ExecutionOutcome::Success),
        (2u64, ExecutionOutcome::Failure(String::from("HTTP request failed: reset"))),
        (3u64, ExecutionOutcome::Success),
    ];
    let r1 = collect_records(&all_good);
    let r2 = collect_records(&one_bad);
    for i in [0usize, 2] {
        assert_eq!(r1[i].task_id, r2[i].task_id);
        assert_eq!(r1[i].final_status, r2[i].final_status);
        assert_eq!(r1[i].error_info, r2[i].error_info);
    }
    assert_eq!(r2[1].final_status, TaskStatus::Failed);
}
