use acyclib::optimiser::nnue_clip::{ClipWork, NnuePytorchClipping};
use acyclib::optimiser::ranger21::{Ranger21, Ranger21Buffer, Ranger21Params};
use acyclib::optimiser::{
    check_weights, AdditionalUpdate, LoadAction, MatrixShape, Optimiser, OptimiserState,
    UpdateAction, WeightInfo,
};
use acyclib::state_map::StateMap;

type Network = Optimiser<&'static str, Ranger21<u8>, &'static str>;

fn params(lookahead_mergetime: usize) -> Ranger21Params<u8> {
    Ranger21Params {
        decay: 0,
        beta1: 1,
        beta2: 2,
        eps: 3,
        alpha: 4,
        lookahead_mergetime,
        clip: Some((5, 6)),
    }
}

fn weight(id: &str, size: usize) -> WeightInfo {
    WeightInfo { id: id.to_string(), shape: MatrixShape { size, batch_size: None } }
}

fn network() -> Network {
    let weights = vec![weight("l0w", 10), weight("l0b", 2)];
    Optimiser::new("graph", &weights, params(5), Ok::<(), ()>(())).ok().unwrap()
}

fn ids(names: &[&str]) -> Vec<String> {
    names.iter().map(|name| name.to_string()).collect()
}

fn run(optimiser: &Network, names: &[&str], gradients: &[bool]) -> Vec<UpdateAction> {
    let mut work = vec![];
    let mut listed = vec![];
    let mut action = optimiser.update();
    while action != UpdateAction::Finished {
        work.push(action);
        let outcome = match action {
            UpdateAction::ListWeights => {
                listed = ids(names);
                Ok(())
            }
            UpdateAction::FetchGradients { weight } if !gradients[weight] => Err("none"),
            _ => Ok(()),
        };
        action = optimiser.resume_update(&listed, action, outcome).unwrap();
    }
    work
}

#[test]
fn each_weight_has_a_new_state() {
    let optimiser = network();
    assert_eq!(optimiser.graph, "graph");
    assert_eq!(optimiser.state.len(), 2);
    assert_eq!(optimiser.state.id(0), "l0w");
    assert_eq!(optimiser.state.at(0).size, 10);
    assert_eq!(optimiser.state.id(1), "l0b");
    assert_eq!(optimiser.state.at(1).size, 2);
    assert_eq!(optimiser.state.at(1).step, 0);
    assert_eq!(optimiser.state.at(1).params.lookahead_mergetime, 5);
    assert_eq!(optimiser.state.at(1).params.clip, Some((5, 6)));
    assert!(optimiser.pre_update.is_empty());
    assert!(optimiser.post_update.is_empty());
}

#[test]
fn an_optimiser_without_buffers_is_not_made() {
    let made: Result<Network, &str> =
        Optimiser::new("graph", &vec![weight("l0w", 10)], params(5), Err("full"));
    assert!(matches!(made, Err("full")));
}

#[test]
fn a_device_error_comes_before_a_repeated_name() {
    let weights = vec![weight("a", 1), weight("a", 2)];
    assert!(!check_weights(&weights));
    let made: Result<Network, &str> = Optimiser::new("graph", &weights, params(5), Err("full"));
    assert!(matches!(made, Err("full")));
}

#[test]
fn a_weight_is_updated_by_the_state_of_its_name() {
    let optimiser = network();
    let listed = ids(&["l0b", "l0w"]);
    assert_eq!(optimiser.state_of(&listed, 0), 1);
    assert_eq!(optimiser.state_of(&listed, 1), 0);
    assert_eq!(optimiser.state.id(optimiser.state_of(&listed, 0)), "l0b");
}

#[test]
fn batched_weights_and_equal_names_are_not_optimised() {
    assert!(check_weights(&vec![]));
    assert!(check_weights(&vec![weight("a", 1), weight("b", 1)]));
    assert!(!check_weights(&vec![weight("a", 1), weight("b", 1), weight("a", 2)]));
    let batched =
        WeightInfo { id: "b".to_string(), shape: MatrixShape { size: 1, batch_size: Some(4) } };
    assert!(!check_weights(&vec![weight("a", 1), batched]));
}

#[test]
fn an_update_goes_through_changes_and_weights_in_order() {
    let mut optimiser = network();
    optimiser.add_pre_update("first");
    optimiser.add_pre_update("second");
    optimiser.add_post_update("last");
    assert_eq!(optimiser.pre_update, vec!["first", "second"]);
    assert_eq!(optimiser.post_update, vec!["last"]);
    assert_eq!(
        run(&optimiser, &["l0w", "l0b"], &[false, true]),
        vec![
            UpdateAction::PreUpdate { index: 0 },
            UpdateAction::PreUpdate { index: 1 },
            UpdateAction::ListWeights,
            UpdateAction::FetchWeights { weight: 0 },
            UpdateAction::FetchGradients { weight: 0 },
            UpdateAction::FetchWeights { weight: 1 },
            UpdateAction::FetchGradients { weight: 1 },
            UpdateAction::ReduceGradients { weight: 1 },
            UpdateAction::UpdateState { weight: 1 },
            UpdateAction::ScatterWeights { weight: 1 },
            UpdateAction::PostUpdate { index: 0 },
        ]
    );
}

#[test]
fn an_update_of_nothing_lists_the_weights_only() {
    assert_eq!(run(&network(), &[], &[]), vec![UpdateAction::ListWeights]);
}

#[test]
fn an_error_ends_an_update_unless_it_is_about_gradients() {
    let mut optimiser = network();
    optimiser.add_pre_update("before");
    optimiser.add_post_update("after");
    let listed = ids(&["l0w", "l0b"]);
    for action in [
        UpdateAction::PreUpdate { index: 0 },
        UpdateAction::ListWeights,
        UpdateAction::FetchWeights { weight: 1 },
        UpdateAction::ReduceGradients { weight: 0 },
        UpdateAction::UpdateState { weight: 0 },
        UpdateAction::ScatterWeights { weight: 1 },
        UpdateAction::PostUpdate { index: 0 },
    ] {
        assert_eq!(optimiser.resume_update(&listed, action, Err("lost")), Err("lost"));
    }
    assert_eq!(
        optimiser.resume_update(&listed, UpdateAction::FetchGradients { weight: 0 }, Err("lost")),
        Ok(UpdateAction::FetchWeights { weight: 1 })
    );
    assert_eq!(
        optimiser.resume_update(&listed, UpdateAction::FetchGradients { weight: 1 }, Err("lost")),
        Ok(UpdateAction::PostUpdate { index: 0 })
    );
}

#[test]
fn a_weight_that_cannot_be_got_needs_no_state() {
    let listed = ids(&["l0w", "l9w"]);
    let got = UpdateAction::FetchWeights { weight: 1 };
    assert_eq!(network().resume_update(&listed, got, Err("lost")), Err("lost"));
    assert_eq!(run(&network(), &["l0w"], &[false]).len(), 3);
}

#[test]
fn weights_without_a_state_are_noticed() {
    let optimiser = network();
    assert!(optimiser.check_ids(&ids(&["l0b"])));
    assert!(!optimiser.check_ids(&ids(&["l0b", "l1w"])));
}

#[test]
fn states_are_reset_one_after_the_other() {
    let mut optimiser = network();
    optimiser.state.at_mut(0).step = 3;
    optimiser.state.at_mut(1).step = 4;
    let done: Result<(), &str> = Ok(());
    let buffers = optimiser.reset_state(0, done).unwrap().unwrap();
    assert_eq!(buffers[0], Ranger21Buffer::Momentum);
    assert_eq!(buffers.len(), 4);
    assert_eq!((optimiser.state.at(0).step, optimiser.state.at(1).step), (0, 4));
    assert_eq!(optimiser.reset_state(1, Err("full")), Err("full"));
    assert_eq!(optimiser.state.at(1).step, 4);
    assert!(optimiser.reset_state(1, done).unwrap().is_some());
    assert_eq!(optimiser.state.at(1).step, 0);
    assert_eq!(optimiser.reset_state(2, done), Ok(None));
}

#[test]
fn parameters_are_set_for_one_weight_or_for_several() {
    let mut optimiser = network();
    optimiser.set_params_for_weight("l0b", params(7));
    assert_eq!(optimiser.state.at(0).params.lookahead_mergetime, 5);
    assert_eq!(optimiser.state.at(1).params.lookahead_mergetime, 7);
    optimiser.set_params(&ids(&["l0b", "l0w"]), params(9));
    assert_eq!(optimiser.state.at(0).params.lookahead_mergetime, 9);
    assert_eq!(optimiser.state.at(1).params.lookahead_mergetime, 9);
    optimiser.set_params(&ids(&["l0w"]), params(1));
    assert_eq!(optimiser.state.at(0).params.lookahead_mergetime, 1);
    assert_eq!(optimiser.state.at(1).params.lookahead_mergetime, 9);
}

#[test]
fn a_checkpoint_holds_the_weights_and_the_states() {
    let mut optimiser = network();
    optimiser.state.at_mut(0).step = 3;
    let checkpoint = optimiser.write_to_checkpoint("out/net");
    assert_eq!(checkpoint.weights_path, "out/net/weights.bin");
    let paths: Vec<&str> = checkpoint.files.iter().map(|file| file.path.as_str()).collect();
    let files = Ranger21::write_to_checkpoint(&optimiser.state.by_ref(), "out/net");
    assert_eq!(paths, files.iter().map(|file| file.path.as_str()).collect::<Vec<&str>>());
}

fn shown(actions: &[LoadAction]) -> Vec<String> {
    actions
        .iter()
        .map(|action| match action {
            LoadAction::LoadWeights { path, old_format } => format!("weights {path} {old_format}"),
            LoadAction::ScatterWeights { weight } => format!("scatter {weight}"),
            LoadAction::LoadState { path, old_format } => format!("state {path} {old_format}"),
        })
        .collect()
}

#[test]
fn loading_takes_the_weights_first_and_copies_them() {
    let optimiser = network();
    assert_eq!(
        shown(&optimiser.load_from_checkpoint(2, "net")),
        vec!["weights net/weights.bin false", "scatter 0", "scatter 1", "state net false"]
    );
    assert_eq!(
        shown(&optimiser.load_from_old_format_checkpoint(1, "net")),
        vec!["weights net/weights.bin true", "scatter 0", "state net true"]
    );
    assert_eq!(
        shown(&optimiser.load_weights_from_file(1, "w.bin")),
        vec!["weights w.bin false", "scatter 0"]
    );
    assert_eq!(
        shown(&optimiser.load_old_format_weights_from_file(0, "w.bin")),
        vec!["weights w.bin true"]
    );
}

#[test]
fn clipping_is_about_three_layers() {
    let mut clipping = NnuePytorchClipping::new(16, 1024, 16, 32, 1.98f32, 2.5f32);
    assert_eq!(clipping.hidden_min, -1.98);
    assert_eq!(clipping.output_min, -2.5);
    let work = clipping.apply_update();
    assert_eq!(work.len(), 3);
    match &work[0] {
        ClipWork::ClipWithRepeatedOffset {
            weights,
            rows,
            cols,
            offset,
            offset_rows,
            offset_cols,
            min,
            max,
        } => {
            assert_eq!((*weights, *rows, *cols), ("l1w", 16, 1024));
            assert_eq!((*offset, *offset_rows, *offset_cols), ("l1fw", 16, 32));
            assert_eq!((*min, *max), (-1.98, 1.98));
        }
        other => panic!("{other:?}"),
    }
    match (&work[1], &work[2]) {
        (
            ClipWork::Clamp { weights: second, min: min2, max: max2 },
            ClipWork::Clamp { weights: third, min: min3, max: max3 },
        ) => {
            assert_eq!((*second, *min2, *max2), ("l2w", -1.98, 1.98));
            assert_eq!((*third, *min3, *max3), ("l3w", -2.5, 2.5));
        }
        other => panic!("{other:?}"),
    }
}

fn perform(work: &[ClipWork<f32>], second: &mut [f32], third: &mut [f32]) {
    for piece in work {
        if let ClipWork::Clamp { weights, min, max } = piece {
            let values = match *weights {
                "l2w" => &mut *second,
                "l3w" => &mut *third,
                other => panic!("{other}"),
            };
            for value in values.iter_mut() {
                *value = value.clamp(*min, *max);
            }
        }
    }
}

#[test]
fn clamping_again_changes_nothing() {
    let mut clipping = NnuePytorchClipping::new(16, 1024, 16, 32, 1.5f32, 0.0f32);
    let mut second = [-3.0, -1.5, 0.25, 1.5, 2.0];
    let mut third = [-1.0, 0.0, 1.0];
    perform(&clipping.apply_update(), &mut second, &mut third);
    assert_eq!(second, [-1.5, -1.5, 0.25, 1.5, 1.5]);
    assert_eq!(third, [0.0, 0.0, 0.0]);
    let (once_second, once_third) = (second, third);
    perform(&clipping.apply_update(), &mut second, &mut third);
    assert_eq!((second, third), (once_second, once_third));
}

#[test]
fn a_state_can_be_replaced() {
    let mut map: StateMap<u8> = StateMap::new();
    assert_eq!(map.insert("a".to_string(), 1), None);
    assert_eq!(map.insert("b".to_string(), 2), None);
    assert_eq!(map.insert("a".to_string(), 3), Some(1));
    assert_eq!(map.len(), 2);
    assert_eq!(map.find("a"), Some(0));
    assert_eq!(map.find("c"), None);
    assert_eq!(*map.at(0), 3);
}
