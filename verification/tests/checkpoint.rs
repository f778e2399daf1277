use acyclib::optimiser::ranger21::{
    buffer_file, legacy_steps_file, load_legacy_step_file, load_steps, steps_file, Ranger21,
    Ranger21Buffer, Ranger21Params, Ranger21Plan, Ranger21Records, Ranger21Steps,
};
use acyclib::optimiser::{
    CheckpointFile, FileContent, OptimiserState, StoredError, WrapOptimiser,
};
use acyclib::parse::{parse_number, split_lines, split_text};
use acyclib::state_map::StateMap;
use acyclib::steps::{parse_steps, StepFileError};

fn params() -> Ranger21Params<u8> {
    Ranger21Params {
        decay: 0,
        beta1: 1,
        beta2: 2,
        eps: 3,
        alpha: 4,
        lookahead_mergetime: 5,
        clip: None,
    }
}

fn states(names: &[&str]) -> StateMap<Ranger21<u8>> {
    let mut map = StateMap::new();
    for name in names {
        let state = Ranger21::new(1, params(), Ok::<(), ()>(())).ok().unwrap();
        assert!(map.insert(name.to_string(), state).is_none());
    }
    map
}

fn strings(names: &[&str]) -> Vec<String> {
    names.iter().map(|name| name.to_string()).collect()
}

fn records(names: &[&str]) -> Ranger21Records {
    Ranger21Records {
        momentum: strings(names),
        neg_momentum: strings(names),
        velocity: strings(names),
        slow: strings(names),
    }
}

fn steps(steps: Option<&str>, legacy_steps: Option<&str>) -> Ranger21Steps {
    Ranger21Steps {
        steps: steps.map(|text| text.to_string()),
        legacy_steps: legacy_steps.map(|text| text.to_string()),
    }
}

fn plan(map: &StateMap<Ranger21<u8>>, records: &Ranger21Records) -> Ranger21Plan {
    Ranger21::<u8>::plan_load(&map.ids(), records)
}

fn load(
    map: &mut StateMap<Ranger21<u8>>,
    records: &Ranger21Records,
    steps: &Ranger21Steps,
) -> Result<(), StoredError> {
    let plan = plan(map, records);
    Ranger21::<u8>::check_stored(&plan, steps)?;
    Ranger21::load_from_checkpoint(map, records, &plan, steps, plan.rows, Ok(()))
}

fn counts(map: &StateMap<Ranger21<u8>>) -> Vec<(String, usize, usize, bool)> {
    (0..map.len())
        .map(|i| {
            let state = map.at(i);
            (map.id(i).to_string(), state.step, state.lookahead_step, state.slow_initialised)
        })
        .collect()
}

fn entry(name: &str, step: usize, lookahead: usize, slow: bool) -> (String, usize, usize, bool) {
    (name.to_string(), step, lookahead, slow)
}

fn text_of(files: &[CheckpointFile<Ranger21Buffer>]) -> String {
    match &files[4].content {
        FileContent::Text(text) => text.clone(),
        FileContent::Buffer { .. } => panic!("the last file is the step file"),
    }
}

fn names_of(file: &CheckpointFile<Ranger21Buffer>, kind: Ranger21Buffer) -> Vec<String> {
    match &file.content {
        FileContent::Buffer { buffer, ids } => {
            assert_eq!(*buffer, kind);
            ids.clone()
        }
        FileContent::Text(_) => panic!("a file of a buffer"),
    }
}

const BUFFERS: [Ranger21Buffer; 4] = [
    Ranger21Buffer::Momentum,
    Ranger21Buffer::NegMomentum,
    Ranger21Buffer::Velocity,
    Ranger21Buffer::Slow,
];

fn names_in(records: &Ranger21Records, kind: Ranger21Buffer) -> &Vec<String> {
    match kind {
        Ranger21Buffer::Momentum => &records.momentum,
        Ranger21Buffer::NegMomentum => &records.neg_momentum,
        Ranger21Buffer::Velocity => &records.velocity,
        Ranger21Buffer::Slow => &records.slow,
    }
}

/// What goes to the device: for each row its name, and the name of the record of each file.
fn rows(records: &Ranger21Records, plan: &Ranger21Plan) -> Vec<Vec<String>> {
    (0..plan.rows)
        .map(|row| {
            BUFFERS
                .iter()
                .map(|kind| names_in(records, *kind)[plan.record(*kind, row)].clone())
                .collect()
        })
        .collect()
}

#[test]
fn a_checkpoint_has_a_file_for_each_buffer_and_one_for_the_steps() {
    let mut map = states(&["l0w", "l1b"]);
    map.at_mut(0).step = 12;
    map.at_mut(0).lookahead_step = 2;
    map.at_mut(1).step = 7;
    let files = Ranger21::write_to_checkpoint(&map.by_ref(), "net-3");
    let paths: Vec<&str> = files.iter().map(|file| file.path.as_str()).collect();
    assert_eq!(
        paths,
        vec![
            "net-3/momentum.bin",
            "net-3/neg_momentum.bin",
            "net-3/velocity.bin",
            "net-3/slow.bin",
            "net-3/step_ranger21.txt",
        ]
    );
    for (file, kind) in files.iter().zip(BUFFERS) {
        assert_eq!(names_of(file, kind), vec!["l0w", "l1b"]);
    }
    assert_eq!(text_of(&files), "l0w,12,2\nl1b,7,0\n");
}

#[test]
fn a_load_looks_where_a_write_has_written() {
    let map = states(&[]);
    let files = Ranger21::write_to_checkpoint(&map.by_ref(), "dir");
    assert_eq!(buffer_file("dir", Ranger21Buffer::Momentum), files[0].path);
    assert_eq!(buffer_file("dir", Ranger21Buffer::NegMomentum), files[1].path);
    assert_eq!(buffer_file("dir", Ranger21Buffer::Velocity), files[2].path);
    assert_eq!(buffer_file("dir", Ranger21Buffer::Slow), files[3].path);
    assert_eq!(steps_file("dir"), files[4].path);
    assert_eq!(text_of(&files), "");
    assert_eq!(legacy_steps_file("dir"), "dir/step.txt");
}

#[test]
fn a_checkpoint_gives_back_what_was_saved() {
    let names = ["l2w", "l0w", "l1w"];
    let mut saved = states(&names);
    for i in 0..3 {
        saved.at_mut(i).step = 100 + i;
        saved.at_mut(i).lookahead_step = i;
        saved.at_mut(i).slow_initialised = true;
    }
    let files = Ranger21::write_to_checkpoint(&saved.by_ref(), "dir");
    let mut loaded = states(&names);
    let found = records(&["l1w", "l2w", "l0w"]);
    let said = steps(Some(&text_of(&files)), Some("l0w,5\n"));
    assert_eq!(load(&mut loaded, &found, &said), Ok(()));
    assert_eq!(counts(&loaded), counts(&saved));
}

#[test]
fn a_checkpoint_is_loaded_by_name_whatever_the_order() {
    let mut saved = states(&["l2w", "l0w", "l1w"]);
    for i in 0..3 {
        saved.at_mut(i).step = 100 + i;
        saved.at_mut(i).lookahead_step = i;
    }
    let files = Ranger21::write_to_checkpoint(&saved.by_ref(), "dir");
    let found = Ranger21Records {
        momentum: names_of(&files[0], Ranger21Buffer::Momentum),
        neg_momentum: names_of(&files[1], Ranger21Buffer::NegMomentum),
        velocity: names_of(&files[2], Ranger21Buffer::Velocity),
        slow: names_of(&files[3], Ranger21Buffer::Slow),
    };
    let mut loaded = states(&["l0w", "l1w", "l2w"]);
    let plan = plan(&loaded, &found);
    assert_eq!(rows(&found, &plan), vec![vec!["l0w"; 4], vec!["l1w"; 4], vec!["l2w"; 4]]);
    assert_eq!(load(&mut loaded, &found, &steps(Some(&text_of(&files)), None)), Ok(()));
    assert_eq!(
        counts(&loaded),
        vec![
            entry("l0w", 101, 1, true),
            entry("l1w", 102, 2, true),
            entry("l2w", 100, 0, true),
        ]
    );
}

#[test]
fn the_order_of_the_records_does_not_matter() {
    let one = Ranger21Records {
        momentum: strings(&["c", "a"]),
        neg_momentum: strings(&["a", "c"]),
        velocity: strings(&["c", "a"]),
        slow: strings(&["c", "a"]),
    };
    let other = Ranger21Records {
        momentum: strings(&["a", "c"]),
        neg_momentum: strings(&["a", "c"]),
        velocity: strings(&["a", "c"]),
        slow: strings(&["c", "a"]),
    };
    let mut first = states(&["a", "b", "c"]);
    let mut second = states(&["a", "b", "c"]);
    let first_rows = rows(&one, &plan(&first, &one));
    assert_eq!(first_rows, vec![vec!["a"; 4], vec!["c"; 4]]);
    assert_eq!(first_rows, rows(&other, &plan(&second, &other)));
    let one_steps = steps(Some("c,3,1\nx,9,9\na,2,0\nx,8,8\na,2,0\n"), None);
    let other_steps = steps(Some("a,2,0\nc,3,1\nx,8,8\nx,9,9\n"), None);
    assert_eq!(load(&mut first, &one, &one_steps), Ok(()));
    assert_eq!(load(&mut second, &other, &other_steps), Ok(()));
    assert_eq!(counts(&first), counts(&second));
    assert_eq!(
        counts(&first),
        vec![entry("a", 2, 0, true), entry("b", 0, 0, false), entry("c", 3, 1, true)]
    );
}

#[test]
fn a_name_with_a_comma_is_not_read_back() {
    let mut saved = states(&["a,1"]);
    saved.at_mut(0).step = 3;
    let text = text_of(&Ranger21::write_to_checkpoint(&saved.by_ref(), "dir"));
    assert_eq!(text, "a,1,3,0\n");
    let mut loaded = states(&["a,1"]);
    assert!(parse_steps(&text, false).is_ok());
    load_steps(&mut loaded, &text, false);
    assert_eq!(counts(&loaded), vec![entry("a,1", 0, 0, false)]);
}

#[test]
fn entries_of_a_row_are_found_by_name() {
    let map = states(&["a", "b", "c"]);
    let found = Ranger21Records {
        momentum: strings(&["c", "a", "b"]),
        neg_momentum: strings(&["a", "b", "c"]),
        velocity: strings(&["b", "c", "a"]),
        slow: strings(&["b", "a"]),
    };
    let plan = plan(&map, &found);
    assert_eq!(plan.momentum, vec![1, 2, 0]);
    assert_eq!(plan.neg_momentum, vec![0, 1, 2]);
    assert_eq!(plan.velocity, vec![2, 0, 1]);
    assert_eq!(plan.slow, vec![1, 0]);
    assert_eq!(plan.rows, 2);
    assert_eq!(plan.failure, None);
    assert_eq!(plan.record(Ranger21Buffer::Momentum, 1), 2);
    assert_eq!(plan.record(Ranger21Buffer::NegMomentum, 1), 1);
    assert_eq!(plan.record(Ranger21Buffer::Velocity, 1), 0);
    assert_eq!(plan.record(Ranger21Buffer::Slow, 1), 0);
}

#[test]
fn names_are_sorted_by_code_point_and_equal_names_stay_in_order() {
    let map = states(&[]);
    let names = ["b", "", "\u{e9}", "ab", "Z", "a", "ab", "\u{1f600}"];
    let plan = plan(&map, &records(&names));
    assert_eq!(plan.momentum, vec![1, 4, 5, 3, 6, 0, 2, 7]);
    let mut sorted: Vec<(usize, &str)> = names.iter().copied().enumerate().collect();
    sorted.sort_by_key(|(_, name)| name.to_string());
    let places: Vec<usize> = sorted.iter().map(|(place, _)| *place).collect();
    assert_eq!(plan.momentum, places);
}

#[test]
fn files_that_differ_are_refused_at_the_first_difference() {
    let mut map = states(&["a", "b"]);
    let found = Ranger21Records { slow: strings(&["a", "c"]), ..records(&["a", "b"]) };
    let plan = plan(&map, &found);
    assert_eq!(plan.rows, 1);
    assert_eq!(plan.failure, Some(StoredError::IdsDiffer { row: 1 }));
    let result = load(&mut map, &found, &steps(Some("a,1,1\n"), None));
    assert_eq!(result, Err(StoredError::IdsDiffer { row: 1 }));
    assert_eq!(counts(&map), vec![entry("a", 0, 0, false), entry("b", 0, 0, false)]);
}

#[test]
fn a_weight_without_a_state_is_refused() {
    let mut map = states(&["b"]);
    let result = load(&mut map, &records(&["a", "b"]), &steps(None, None));
    assert_eq!(result, Err(StoredError::UnknownId { row: 0 }));
    assert_eq!(counts(&map), vec![entry("b", 0, 0, false)]);
}

#[test]
fn a_device_that_fails_leaves_the_later_states_alone() {
    let mut map = states(&["a", "b"]);
    let found = records(&["a", "b"]);
    let plan = plan(&map, &found);
    let none = steps(None, None);
    let result = Ranger21::load_from_checkpoint(&mut map, &found, &plan, &none, 1, Err("full"));
    assert_eq!(result, Err("full"));
    assert_eq!(counts(&map), vec![entry("a", 0, 0, true), entry("b", 0, 0, false)]);

    let unused = steps(Some("a,1,1\nb,1,1\n"), None);
    let result = Ranger21::load_from_checkpoint(&mut map, &found, &plan, &unused, 0, Err("full"));
    assert_eq!(result, Err("full"));
    assert_eq!(counts(&map), vec![entry("a", 0, 0, true), entry("b", 0, 0, false)]);
}

#[test]
fn the_older_step_file_counts_where_there_is_no_other() {
    let mut map = states(&["a", "b"]);
    map.at_mut(0).lookahead_step = 3;
    let said = steps(None, Some("a,9\nx,1\n"));
    assert_eq!(load(&mut map, &records(&["a", "b"]), &said), Ok(()));
    assert_eq!(counts(&map), vec![entry("a", 9, 3, true), entry("b", 0, 0, true)]);

    let mut map = states(&["a"]);
    let said = steps(Some(""), Some("a,9\n"));
    assert_eq!(load(&mut map, &records(&["a"]), &said), Ok(()));
    assert_eq!(counts(&map), vec![entry("a", 0, 0, true)]);
}

#[test]
fn a_checkpoint_without_steps_leaves_the_counts() {
    let mut map = states(&["a"]);
    map.at_mut(0).step = 4;
    assert_eq!(load(&mut map, &records(&["a"]), &steps(None, None)), Ok(()));
    assert_eq!(counts(&map), vec![entry("a", 4, 0, true)]);
}

#[test]
fn the_last_line_on_a_weight_counts() {
    let mut map = states(&["a", "b"]);
    load_steps(&mut map, "a,1,2\nb,3,4,ignored\r\na,5,+6", false);
    assert_eq!(counts(&map), vec![entry("a", 5, 6, false), entry("b", 3, 4, false)]);
}

#[test]
fn records_in_another_order_load_alike_with_the_same_step_file() {
    let mut first = states(&["a", "b"]);
    let mut second = states(&["a", "b"]);
    let said = steps(Some("a,1,2\na,3,4\n"), None);
    assert_eq!(load(&mut first, &records(&["a", "b"]), &said), Ok(()));
    assert_eq!(load(&mut second, &records(&["b", "a"]), &said), Ok(()));
    assert_eq!(counts(&first), counts(&second));
    assert_eq!(counts(&first), vec![entry("a", 3, 4, true), entry("b", 0, 0, true)]);
}

#[test]
fn the_last_older_line_on_a_weight_counts_and_keeps_the_lookahead() {
    let mut map = states(&["a", "b", "c"]);
    map.at_mut(0).lookahead_step = 2;
    map.at_mut(1).lookahead_step = 1;
    map.at_mut(2).step = 6;
    let file = Some("a,1\nb,3\na,5\n".to_string());
    load_legacy_step_file(&mut map, &file);
    assert_eq!(
        counts(&map),
        vec![entry("a", 5, 2, false), entry("b", 3, 1, false), entry("c", 6, 0, false)]
    );
    load_legacy_step_file(&mut map, &None);
    assert_eq!(counts(&map)[0], entry("a", 5, 2, false));
}

#[test]
fn a_step_file_that_cannot_be_read_is_refused() {
    for (text, line) in [
        ("a,1,2\n\n", 1),
        ("a,1\n", 0),
        ("a,1,\n", 0),
        ("a,x,1\n", 0),
        ("a,-1,1\n", 0),
        ("a,1, 1\n", 0),
        ("a,1,1\r", 0),
        ("a,+,1\n", 0),
        ("a,1,99999999999999999999999\n", 0),
    ] {
        let mut map = states(&["a"]);
        let result = load(&mut map, &records(&["a"]), &steps(Some(text), None));
        assert_eq!(result, Err(StoredError::Steps(StepFileError { line })), "{text:?}");
        assert_eq!(counts(&map), vec![entry("a", 0, 0, false)]);
    }
    let mut map = states(&["a"]);
    let result = load(&mut map, &records(&["a"]), &steps(None, Some("a,1\na\n")));
    assert_eq!(result, Err(StoredError::Steps(StepFileError { line: 1 })));
}

#[test]
fn older_step_files_need_two_fields() {
    assert_eq!(parse_steps("a,1\nb\n", true).unwrap_err(), StepFileError { line: 1 });
    let records = parse_steps("a,1\nb,2,x", true).unwrap();
    assert_eq!(records.len(), 2);
    assert_eq!(records[1].id, "b");
    assert_eq!(records[1].step, 2);
    assert_eq!(records[1].lookahead_step, None);
}

#[test]
fn numbers_are_read_as_they_are_written() {
    let largest = usize::MAX.to_string();
    for text in ["0", "7", "+7", "007", "123456", "", "+", "++1", "-1", "1.0", "1 ", "\u{661}"] {
        assert_eq!(parse_number(text), text.parse::<usize>().ok(), "{text:?}");
    }
    assert_eq!(parse_number(&largest), Some(usize::MAX));
    assert_eq!(parse_number(&format!("{largest}0")), None);
    assert_eq!(parse_number("18446744073709551616"), None);
}

#[test]
fn texts_are_split_as_expected() {
    for text in ["", ",", "a", "a,b", ",a,,b,", "\u{e9},\u{1f600}"] {
        assert_eq!(split_text(text, ','), text.split(',').collect::<Vec<&str>>());
    }
    for text in ["", "\n", "a", "a\n", "a\r\nb", "a\n\nb\n", "\r\n\n", "a\rb\n"] {
        assert_eq!(split_lines(text), text.lines().collect::<Vec<&str>>(), "{text:?}");
    }
    assert_eq!(split_lines("a\r"), vec!["a\r"]);
}

struct Named {
    mergetime: usize,
}

impl Clone for Named {
    fn clone(&self) -> Self {
        Named { mergetime: self.mergetime }
    }
}

impl From<Named> for Ranger21Params<u8> {
    fn from(named: Named) -> Self {
        Ranger21Params { lookahead_mergetime: named.mergetime, ..params() }
    }
}

type Wrapped = WrapOptimiser<Ranger21<u8>, Named>;

fn wrapped(size: usize, mergetime: usize) -> Wrapped {
    Wrapped::new(size, Named { mergetime }, Ok::<(), ()>(())).ok().unwrap()
}

#[test]
fn a_wrapped_state_does_what_the_state_inside_does() {
    assert!(matches!(Wrapped::new(3, Named { mergetime: 8 }, Err(1)), Err(1)));
    let mut state = wrapped(3, 8);
    assert_eq!(state.optimiser.size, 3);
    assert_eq!(state.optimiser.params.lookahead_mergetime, 8);
    state.set_params(Named { mergetime: 2 });
    assert_eq!(state.optimiser.params.lookahead_mergetime, 2);
    state.optimiser.step = 4;
    assert_eq!(state.reset().len(), 4);
    assert_eq!(state.optimiser.step, 0);
}

#[test]
fn wrapped_states_are_saved_and_loaded() {
    let mut map: StateMap<Wrapped> = StateMap::new();
    for name in ["b", "a"] {
        assert!(map.insert(name.to_string(), wrapped(1, 1)).is_none());
    }
    map.at_mut(1).optimiser.step = 6;
    let files = Wrapped::write_to_checkpoint(&map.by_ref(), "dir");
    assert_eq!(text_of(&files), "b,0,0\na,6,0\n");

    map.at_mut(1).optimiser.step = 0;
    let found = records(&["a", "b"]);
    let said = steps(Some(&text_of(&files)), None);
    let plan = Wrapped::plan_load(&map.ids(), &found);
    assert_eq!(plan.rows, 2);
    assert_eq!(Wrapped::check_stored(&plan, &said), Ok(()));
    let outcome: Result<(), ()> = Ok(());
    let result = Wrapped::load_from_checkpoint(&mut map, &found, &plan, &said, 2, outcome);
    assert_eq!(result, Ok(()));
    assert_eq!(map.id(0), "b");
    assert!(map.at(0).optimiser.slow_initialised);
    assert_eq!(map.at(1).optimiser.step, 6);
}
