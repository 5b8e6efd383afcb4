use libre_pvz::almanac::{check_failure, initial_meta, try_first_k_and_rest, AlmanacPlugin};
use libre_pvz::animation::{AnimDesc, Meta};
use libre_pvz::bits::F32Bits;
use libre_pvz::cached::SortedSlice;

fn names(n: usize) -> Vec<String> {
    (1..=n).map(|i| format!("img{i}.png")).collect()
}

#[test]
fn first_k_and_rest_plans() {
    let run = |k: usize, n: usize| {
        let items: Vec<usize> = (1..=n).collect();
        try_first_k_and_rest(
            k,
            items,
            || vec!["init".to_string()],
            |mut log: Vec<String>, x: usize| -> Result<Vec<String>, ()> {
                log.push(format!("item {x}"));
                Ok(log)
            },
            |mut log: Vec<String>, m: usize| -> Result<Vec<String>, ()> {
                log.push(format!("rest {m}"));
                Ok(log)
            },
        )
    };
    assert_eq!(run(3, 0), Ok(None));
    assert_eq!(run(3, 1), Ok(Some(vec!["init".to_string(), "item 1".to_string()])));
    assert_eq!(run(3, 4).unwrap().unwrap().len(), 5);
    assert_eq!(
        run(3, 5),
        Ok(Some(vec![
            "init".to_string(),
            "item 1".to_string(),
            "item 2".to_string(),
            "item 3".to_string(),
            "rest 2".to_string(),
        ]))
    );
    assert_eq!(run(1, 10).unwrap().unwrap(), vec!["init".to_string(), "item 1".to_string(), "rest 9".to_string()]);
}

#[test]
fn first_k_and_rest_stops_at_first_error() {
    let r: Result<Option<u32>, String> = try_first_k_and_rest(
        3,
        vec![1u32, 2, 3, 4, 5, 6],
        || 0,
        |acc: u32, x: u32| if x == 2 { Err(format!("bad {x}")) } else { Ok(acc + x) },
        |_: u32, _: usize| -> Result<u32, String> { panic!("rest must not run after an error") },
    );
    assert_eq!(r, Err("bad 2".to_string()));
    let r: Result<Option<u32>, String> = try_first_k_and_rest(
        2,
        vec![1u32, 2, 3, 4],
        || 10,
        |acc: u32, x: u32| Ok(acc + x),
        |acc: u32, m: usize| if m == 2 { Err(format!("rest of {m} after {acc}")) } else { Ok(acc) },
    );
    assert_eq!(r, Err("rest of 2 after 13".to_string()));
    let none: Result<Option<u32>, String> = try_first_k_and_rest(
        2,
        Vec::<u32>::new(),
        || -> u32 { panic!("init must not run without items") },
        |acc: u32, x: u32| Ok(acc + x),
        |acc: u32, _: usize| Ok(acc),
    );
    assert_eq!(none, Ok(None));
}

#[test]
fn failure_messages() {
    assert_eq!(check_failure(&names(0)), None);
    assert_eq!(check_failure(&names(2)).unwrap(), "Failed to load these assets:\n• img1.png\n• img2.png\n");
    assert_eq!(
        check_failure(&names(4)).unwrap(),
        "Failed to load these assets:\n• img1.png\n• img2.png\n• img3.png\n• img4.png\n"
    );
    assert_eq!(
        check_failure(&names(12)).unwrap(),
        "Failed to load these assets:\n• img1.png\n• img2.png\n• img3.png\n... and 9 others\n"
    );
}

#[test]
fn almanac_plugin_keeps_name() {
    assert_eq!(AlmanacPlugin::new("Peashooter.anim".to_string()).anim_name(), "Peashooter.anim");
}

fn meta(name: &str) -> Meta {
    Meta { name: name.to_string(), start_frame: 0, end_frame: 1 }
}

#[test]
fn almanac_opens_on_idle_animation() {
    let with_idle = AnimDesc {
        fps: F32Bits(0),
        meta: SortedSlice::from(vec![meta("anim_walk"), meta("anim_idle"), meta("anim_blink")]),
        tracks: vec![],
    };
    // sorted: anim_blink, anim_idle, anim_walk
    assert_eq!(initial_meta(&with_idle), 1);
    let without = AnimDesc { fps: F32Bits(0), meta: SortedSlice::from(vec![meta("anim_walk")]), tracks: vec![] };
    assert_eq!(initial_meta(&without), 0);
}
