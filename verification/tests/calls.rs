use located_context::decimal::decimal_string;
use located_context::with_location::marker_string;
use located_context::{Context, Location, Render, WithLocation};
use std::cell::Cell;

fn frames_of(error: &anyhow::Error) -> Vec<String> {
    error.chain().map(|frame| frame.to_string()).collect()
}

fn site() -> Location {
    Location { file: "src/main.rs", line: 3, column: 9 }
}

#[test]
fn success_passes_through_context() {
    let fine: Result<u32, anyhow::Error> = Ok(17);
    assert_eq!(fine.context("unused", site()).unwrap(), 17);

    let present: Option<&str> = Some("payload");
    assert_eq!(present.context("unused", site()).unwrap(), "payload");
}

#[test]
fn success_passes_through_with_context_without_calling_the_producer() {
    let calls = Cell::new(0u32);
    let fine: Result<Vec<u8>, anyhow::Error> = Ok(vec![1, 2, 3]);
    let out = fine.with_context(
        || {
            calls.set(calls.get() + 1);
            "unused"
        },
        site(),
    );
    assert_eq!(out.unwrap(), vec![1, 2, 3]);
    assert_eq!(calls.get(), 0);

    let present: Option<char> = Some('x');
    let out = present.with_context(
        || {
            calls.set(calls.get() + 1);
            String::from("unused")
        },
        site(),
    );
    assert_eq!(out.unwrap(), 'x');
    assert_eq!(calls.get(), 0);
}

#[test]
fn success_passes_through_dot() {
    let fine: Result<i64, anyhow::Error> = Ok(-5);
    assert_eq!(fine.dot(site()).unwrap(), -5);

    let present: Option<bool> = Some(true);
    assert!(present.dot(site()).unwrap());
}

#[test]
fn failure_gains_exactly_one_frame() {
    let failed: Result<(), anyhow::Error> =
        Err(anyhow::Error::msg("root").context("middle"));
    let before = frames_of(failed.as_ref().unwrap_err());
    assert_eq!(before, vec!["middle", "root"]);

    let error = failed.context(String::from("top"), site()).unwrap_err();

    assert_eq!(
        frames_of(&error),
        vec!["top at `src/main.rs:3:9`", "middle", "root"]
    );
}

#[test]
fn with_context_calls_the_producer_once_on_a_failure() {
    let calls = Cell::new(0u32);
    let failed: Result<(), anyhow::Error> = Err(anyhow::Error::msg("timeout"));
    let error = failed
        .with_context(
            || {
                calls.set(calls.get() + 1);
                String::from("fetching page 4")
            },
            site(),
        )
        .unwrap_err();
    assert_eq!(calls.get(), 1);
    assert_eq!(
        frames_of(&error),
        vec!["fetching page 4 at `src/main.rs:3:9`", "timeout"]
    );
}

#[test]
fn with_context_calls_the_producer_once_on_an_absent_value() {
    let calls = Cell::new(0u32);
    let absent: Option<u8> = None;
    let error = absent
        .with_context(
            || {
                calls.set(calls.get() + 1);
                "no such key"
            },
            site(),
        )
        .unwrap_err();
    assert_eq!(calls.get(), 1);
    assert_eq!(frames_of(&error), vec!["no such key at `src/main.rs:3:9`"]);
    assert!(error.source().is_none());
}

#[test]
fn two_call_sites_give_two_different_frames() {
    let first = Location { file: "a.rs", line: 1, column: 12 };
    let second = Location { file: "a.rs", line: 11, column: 2 };

    let one: Result<(), anyhow::Error> = Err(anyhow::Error::msg("boom"));
    let two: Result<(), anyhow::Error> = Err(anyhow::Error::msg("boom"));
    let one = one.context("step", first).unwrap_err();
    let two = two.context("step", second).unwrap_err();

    assert_eq!(one.to_string(), "step at `a.rs:1:12`");
    assert_eq!(two.to_string(), "step at `a.rs:11:2`");
    assert_ne!(one.to_string(), two.to_string());
}

#[test]
fn the_frame_names_the_annotating_call_not_the_origin() {
    let origin = Location { file: "origin.rs", line: 5, column: 5 };
    let later = Location { file: "later.rs", line: 50, column: 1 };

    let failed: Option<()> = None;
    let error = failed.context("made here", origin);
    let error = error.context("seen here", later).unwrap_err();

    assert_eq!(
        frames_of(&error),
        vec!["seen here at `later.rs:50:1`", "made here at `origin.rs:5:5`"]
    );
}

#[test]
fn dot_is_context_with_the_marker_as_message() {
    let here = Location { file: "lib.rs", line: 8, column: 21 };

    let marked: Result<(), anyhow::Error> = Err(anyhow::Error::msg("inner"));
    let marked = marked.dot(here).unwrap_err();

    let spelled: Result<(), anyhow::Error> = Err(anyhow::Error::msg("inner"));
    let spelled = spelled.context("at `lib.rs:8:21`", here).unwrap_err();

    assert_eq!(frames_of(&marked), frames_of(&spelled));
    assert_eq!(
        frames_of(&marked),
        vec!["at `lib.rs:8:21` at `lib.rs:8:21`", "inner"]
    );
}

#[test]
fn dot_on_an_absent_value_reads_the_position_twice() {
    let absent: Option<u8> = None;
    let error = absent
        .dot(Location { file: "x.rs", line: 1, column: 1 })
        .unwrap_err();
    assert_eq!(frames_of(&error), vec!["at `x.rs:1:1` at `x.rs:1:1`"]);
}

#[test]
fn marker_string_reads_the_position_once() {
    let here = Location { file: "dir/file.rs", line: 1000, column: 80 };
    assert_eq!(marker_string(here), "at `dir/file.rs:1000:80`");
}

#[test]
fn decimal_string_edge_values() {
    assert_eq!(decimal_string(0), "0");
    assert_eq!(decimal_string(7), "7");
    assert_eq!(decimal_string(9), "9");
    assert_eq!(decimal_string(10), "10");
    assert_eq!(decimal_string(101), "101");
    assert_eq!(decimal_string(4_000_000_000), "4000000000");
    assert_eq!(decimal_string(u32::MAX), "4294967295");
}

#[test]
fn decimal_string_agrees_with_std() {
    let mut n: u32 = 1;
    for _ in 0..40 {
        assert_eq!(decimal_string(n), n.to_string());
        n = n.wrapping_mul(2_654_435_761).wrapping_add(12_345);
    }
}

#[test]
fn location_renders_as_file_line_column() {
    let here = Location { file: "src/lib.rs", line: 42, column: 10 };
    assert_eq!(here.render(), "src/lib.rs:42:10");

    let odd = Location { file: "", line: 0, column: u32::MAX };
    assert_eq!(odd.render(), ":0:4294967295");

    let colons = Location { file: "C:\\work\\a:b.rs", line: 1, column: 2 };
    assert_eq!(colons.render(), "C:\\work\\a:b.rs:1:2");
}

#[test]
fn with_location_renders_the_message_then_the_position() {
    let frame = WithLocation {
        error: "loading config",
        location: Location { file: "app.src", line: 42, column: 10 },
    };
    assert_eq!(frame.render(), "loading config at `app.src:42:10`");

    let empty = WithLocation {
        error: String::new(),
        location: Location { file: "f", line: 1, column: 1 },
    };
    assert_eq!(empty.render(), " at `f:1:1`");
}

#[test]
fn with_location_nests() {
    let inner = WithLocation {
        error: "deep",
        location: Location { file: "in.rs", line: 2, column: 3 },
    };
    let outer = WithLocation {
        error: inner,
        location: Location { file: "out.rs", line: 4, column: 5 },
    };
    assert_eq!(outer.render(), "deep at `in.rs:2:3` at `out.rs:4:5`");
}

#[test]
fn with_location_gives_read_access_to_the_context_value() {
    let frame = WithLocation {
        error: String::from("payload"),
        location: Location { file: "f.rs", line: 9, column: 9 },
    };
    let by_ref: &String = frame.as_ref();
    assert_eq!(by_ref, "payload");
    assert_eq!(frame.len(), 7);
    assert_eq!(&*frame, "payload");
    assert_eq!(frame.error, "payload");
    assert_eq!(frame.location.file, "f.rs");
    assert_eq!(frame.location.line, 9);
    assert_eq!(frame.location.column, 9);

    let copy = frame.clone();
    assert_eq!(copy.error, frame.error);
    assert_eq!(copy.render(), frame.render());
}

#[test]
fn strings_render_as_themselves() {
    assert_eq!(String::from("owned text").render(), "owned text");
    assert_eq!("borrowed text".render(), "borrowed text");
    assert_eq!("".render(), "");
    assert_eq!("naïve ✓".render(), "naïve ✓");
}
