use dinotrain::brain::Brain;
use dinotrain::codec::{brain_file_index, decode_brain, decode_checkpoint, encode_brain, encode_checkpoint};
use dinotrain::error::TrainError;
use dinotrain::params::GameParameters;
use dinotrain::rng::TrainRng;
use dinotrain::train::{checkpoint_from, load_checkpoint, max_brain_index, restore_rng, IntermediateResult};
use dinotrain::utils::str_to_u8_array;

#[test]
fn test_brain_round_trip() {
    let params = GameParameters::new_default();
    let mut rng = TrainRng::from_seed(str_to_u8_array(params.brain_seed.as_str()));
    let brain = Brain::new(&params, &mut rng);
    let bytes = encode_brain(&brain);
    let decoded = decode_brain(bytes.as_slice()).expect("the encoding parses back");
    assert_eq!(decoded, brain);
}

#[test]
fn test_empty_brain_round_trip() {
    let brain = Brain { neurone_web: Vec::new() };
    let bytes = encode_brain(&brain);
    let decoded = decode_brain(bytes.as_slice()).expect("the encoding parses back");
    assert_eq!(decoded, brain);
}

#[test]
fn test_checkpoint_round_trip() {
    let params = GameParameters::new_default();
    let mut rng = TrainRng::from_seed(str_to_u8_array(params.brain_seed.as_str()));
    let b1 = Brain::new(&params, &mut rng);
    let b2 = Brain::new(&params, &mut rng);
    let survivors = vec![(b1, 42u64), (b2, 42u64)];
    let cp = checkpoint_from(&survivors, &rng, 42);
    let bytes = encode_checkpoint(&cp);
    let decoded = decode_checkpoint(bytes.as_slice()).expect("the encoding parses back");
    assert_eq!(decoded, cp);
}

#[test]
fn test_checkpoint_bytes_are_one_json_object() {
    let params = GameParameters::new_default();
    let mut rng = TrainRng::from_seed(str_to_u8_array(params.brain_seed.as_str()));
    let brain = Brain::new(&params, &mut rng);
    let survivors = vec![(brain, 3u64)];
    let cp = checkpoint_from(&survivors, &rng, 3);
    let bytes = encode_checkpoint(&cp);

    // the file is real JSON with exactly the documented fields
    let value: serde_json::Value =
        serde_json::from_slice(bytes.as_slice()).expect("a checkpoint file is a JSON object");
    let object = value.as_object().expect("a JSON object");
    assert_eq!(object.len(), 3);
    assert!(object.get("brains").expect("a brains field").is_array());
    assert!(object.get("rng").expect("an rng field").is_object());
    assert_eq!(object.get("score").expect("a score field").as_u64(), Some(3));
    let rng_obj = object.get("rng").unwrap().as_object().unwrap();
    assert!(rng_obj.contains_key("state"));
    assert!(rng_obj.contains_key("increment"));
}

#[test]
fn test_brain_file_names_parse_to_indices() {
    assert_eq!(brain_file_index("brain42.json"), Some(42));
    assert_eq!(brain_file_index("brain0.json"), Some(0));
    assert_eq!(brain_file_index("brain.json"), None);
    assert_eq!(brain_file_index("brain42.json.bak"), None);
    assert_eq!(brain_file_index("params.json"), None);
    let names = vec![
        "params.json".to_string(),
        "brain100.json".to_string(),
        "brain7.json".to_string(),
        "notes.txt".to_string(),
    ];
    assert_eq!(max_brain_index(&names), Some(100));
    let empty: Vec<String> = Vec::new();
    assert_eq!(max_brain_index(&empty), None);
}

#[test]
fn test_decode_rejects_truncated_and_trailing_bytes() {
    let params = GameParameters::new_default();
    let mut rng = TrainRng::from_seed([9; 32]);
    let brain = Brain::new(&params, &mut rng);
    let bytes = encode_brain(&brain);

    let truncated = &bytes[..bytes.len() - 1];
    assert!(decode_brain(truncated).is_none());

    let mut trailing = bytes.clone();
    trailing.push(0);
    assert!(decode_brain(trailing.as_slice()).is_none());

    assert!(decode_checkpoint(&[1, 2, 3]).is_none());
}

#[test]
fn test_load_checkpoint_round_trip_and_corruption() {
    let params = GameParameters::new_default();
    let mut rng = TrainRng::from_seed(str_to_u8_array(params.brain_seed.as_str()));
    let brain = Brain::new(&params, &mut rng);
    let survivors = vec![(brain, 7u64)];
    let cp = checkpoint_from(&survivors, &rng, 7);
    let bytes = encode_checkpoint(&cp);

    let loaded = load_checkpoint(&params, bytes.as_slice()).expect("a fresh save loads back");
    assert_eq!(loaded, cp);

    // the restored generator continues the saved stream
    let restored = restore_rng(&loaded).expect("a fresh state parses");
    let mut a = restored;
    let mut b = rng.duplicate();
    assert_eq!(a.next_u32(), b.next_u32());

    // corrupt bytes are refused
    assert_eq!(
        load_checkpoint(&params, &[0xff, 0x00, 0x42]).unwrap_err(),
        TrainError::CheckpointCorrupt
    );

    // a checkpoint whose brain leaves the field is refused
    let mut off_field = IntermediateResult {
        brains: vec![Brain { neurone_web: Vec::new() }],
        rng: cp.rng.clone(),
        score: 0,
    };
    off_field.brains[0].neurone_web.push(dinotrain::neurone::NeuroneWeb {
        neurones: vec![dinotrain::neurone::Neurone {
            x: -1,
            y: 50_000,
            width: params.neurone_width,
            height: params.neurone_height,
            activation_condition: dinotrain::neurone::NeuroneActivationCondition::Air,
            activation: dinotrain::neurone::NeuroneActivation::Activate,
        }],
        action: dinotrain::neurone::NeuroneWebAction::Jump,
    });
    let bad_bytes = encode_checkpoint(&off_field);
    assert_eq!(
        load_checkpoint(&params, bad_bytes.as_slice()).unwrap_err(),
        TrainError::CheckpointCorrupt
    );
}

#[test]
fn test_error_descriptions_are_nonempty() {
    let errors = [
        TrainError::ConfigMismatch,
        TrainError::CheckpointCorrupt,
        TrainError::EmptyPopulationOrSurvivors,
        TrainError::ClockOverflow,
    ];
    for e in errors.iter() {
        assert!(!e.describe().is_empty());
    }
}

#[test]
fn test_clock_overflow_is_fatal() {
    let params = GameParameters::new_default();
    let mut game = dinotrain::game::Game::new(&params, u64::MAX - 1, "gra", None);
    // the next spawn time cannot fit the clock any more
    let r = game.update(u64::MAX);
    assert_eq!(r.unwrap_err(), TrainError::ClockOverflow);
}
