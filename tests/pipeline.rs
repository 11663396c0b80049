use deeprepo::pipeline::{ModuleRun, SectionRun, MODULE_CONCURRENCY};

fn permutations(items: &[usize]) -> Vec<Vec<usize>> {
    if items.len() <= 1 {
        return vec![items.to_vec()];
    }
    let mut out = Vec::new();
    for i in 0..items.len() {
        let mut rest = items.to_vec();
        let x = rest.remove(i);
        for mut p in permutations(&rest) {
            p.insert(0, x);
            out.push(p);
        }
    }
    out
}

fn run_sections(names: &[String], completion: &[usize]) -> Vec<(String, String)> {
    let mut run = SectionRun::new(names.to_vec());
    for i in 0..names.len() {
        run.dispatch(i);
    }
    for &i in completion {
        run.record(i, Ok(format!("body of {}", names[i])));
    }
    assert!(run.all_settled());
    run.finish().unwrap()
}

#[test]
fn section_order_follows_request_for_every_permutation() {
    let base = ["overview", "architecture", "modules", "flows", "deploy"];
    let perms = permutations(&[0, 1, 2, 3, 4]);
    assert_eq!(perms.len(), 120);
    for order in &perms {
        let names: Vec<String> = order.iter().map(|&i| base[i].to_string()).collect();
        let in_order: Vec<usize> = (0..5).collect();
        let reversed: Vec<usize> = (0..5).rev().collect();
        let shuffled = vec![2, 4, 0, 3, 1];
        for completion in [&in_order, &reversed, &shuffled] {
            let out = run_sections(&names, completion);
            let got: Vec<&str> = out.iter().map(|(n, _)| n.as_str()).collect();
            let want: Vec<&str> = names.iter().map(|n| n.as_str()).collect();
            assert_eq!(got, want);
            for (n, body) in &out {
                assert_eq!(body, &format!("body of {}", n));
            }
        }
    }
}

#[test]
fn failed_section_fails_the_run() {
    let names: Vec<String> = ["a", "b", "c"].iter().map(|s| s.to_string()).collect();
    let mut run = SectionRun::new(names);
    for i in 0..3 {
        run.dispatch(i);
    }
    assert!(!run.all_settled());
    run.record(2, Err("late".to_string()));
    run.record(0, Ok("x".to_string()));
    run.record(1, Err("broken".to_string()));
    let err = run.finish().unwrap_err();
    assert_eq!(err.section, "b");
    assert_eq!(err.error, "broken");
}

fn run_modules(n: usize, completion: &[usize], fail: Option<usize>) -> String {
    let mut run = ModuleRun::new(n);
    let mut next = 0;
    let mut done = 0;
    while next < n && run.has_room() {
        run.dispatch(next);
        next += 1;
    }
    for &i in completion {
        let outcome = if Some(i) == fail { Err("boom".to_string()) } else { Ok(format!("[{}]", i)) };
        run.record(i, outcome);
        done += 1;
        while next < n && run.has_room() {
            run.dispatch(next);
            next += 1;
        }
    }
    assert_eq!(done, n);
    run.finish()
}

#[test]
fn module_text_follows_module_order_when_completed_in_reverse() {
    let n = 8;
    let reversed: Vec<usize> = (0..n).rev().collect();
    assert_eq!(run_modules(n, &reversed, None), "[0][1][2][3][4][5][6][7]");
}

#[test]
fn one_failed_module_is_left_out() {
    let order = vec![3, 1, 4, 0, 2];
    assert_eq!(run_modules(5, &order, Some(4)), "[0][1][2][3]");
    assert_eq!(run_modules(5, &order, Some(0)), "[1][2][3][4]");
}

#[test]
fn module_admission_is_capped() {
    let n = MODULE_CONCURRENCY + 10;
    let mut run = ModuleRun::new(n);
    let mut started = 0;
    while started < n && run.has_room() {
        run.dispatch(started);
        started += 1;
    }
    assert_eq!(started, MODULE_CONCURRENCY);
    run.record(0, Ok("a".to_string()));
    assert!(run.has_room());
    run.dispatch(started);
    assert!(!run.has_room());
}

#[test]
fn in_order_completion_of_large_run() {
    let n = 120;
    let order: Vec<usize> = (0..n).collect();
    let text = run_modules(n, &order, Some(7));
    assert!(!text.contains("[7]"));
    assert!(text.starts_with("[0][1][2][3][4][5][6][8]"));
}
