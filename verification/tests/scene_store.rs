use cerise::scene::{new_world, query_frames, query_vcos, spawn_frame, spawn_vco, tick};
use cerise::synth::{Vco, VcoWaveform};
use cerise::util::{Parent, Pos, Size, Transform};

#[test]
fn spawn_then_query_returns_exactly_one_match() {
    let mut world = new_world();
    let id = spawn_frame(&mut world, String::from("oscillator"), Pos(50, 50), Size(260, 60));
    let frames = query_frames(&world);
    assert_eq!(frames.len(), 1);
    assert_eq!(frames[0], (id, Pos(50, 50), Size(260, 60)));
}

#[test]
fn query_for_never_attached_components_is_empty() {
    let mut world = new_world();
    spawn_frame(&mut world, String::from("oscillator"), Pos(50, 50), Size(260, 60));
    assert!(query_vcos(&world).is_empty());

    let mut other = new_world();
    spawn_vco(
        &mut other,
        Vco { waveform: VcoWaveform::Sine, frequency: 440, amplitude_milli: 500 },
        Size(250, 50),
        Parent { entity: 1, transform: Transform(10, 10) },
    );
    assert!(query_frames(&other).is_empty());
}

#[test]
fn fresh_world_has_no_entities() {
    let world = new_world();
    assert!(query_frames(&world).is_empty());
    assert!(query_vcos(&world).is_empty());
}

#[test]
fn spawn_vco_then_query_returns_its_components() {
    let mut world = new_world();
    let frame = spawn_frame(&mut world, String::from("oscillator"), Pos(50, 50), Size(260, 60));
    let vco = Vco { waveform: VcoWaveform::Sine, frequency: 440, amplitude_milli: 500 };
    let link = Parent { entity: frame, transform: Transform(10, 10) };
    let id = spawn_vco(&mut world, vco, Size(250, 50), link);
    let vcos = query_vcos(&world);
    assert_eq!(vcos.len(), 1);
    assert_eq!(vcos[0], (id, vco, Size(250, 50), link));
}

#[test]
fn spawned_entities_get_distinct_identifiers() {
    let mut world = new_world();
    let a = spawn_frame(&mut world, String::from("a"), Pos(0, 0), Size(10, 10));
    let b = spawn_frame(&mut world, String::from("b"), Pos(20, 20), Size(10, 10));
    assert_ne!(a, b);
    assert_eq!(query_frames(&world).len(), 2);
}

#[test]
fn tick_mutates_nothing() {
    let mut world = new_world();
    let id = spawn_frame(&mut world, String::from("oscillator"), Pos(50, 50), Size(260, 60));
    tick(&world);
    tick(&world);
    let frames = query_frames(&world);
    assert_eq!(frames, vec![(id, Pos(50, 50), Size(260, 60))]);
}
