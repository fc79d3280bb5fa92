use prelearning::language_pack::pipeline::{create_pipeline, Alignment, TimingStep};

#[test]
fn equal_runs_step_segment_by_segment() {
    let p = create_pipeline(());
    let steps = p.timing_steps(&vec![
        Alignment { timing_pos: 0, timing_len: 2, text_pos: 5, text_len: 2 },
        Alignment { timing_pos: 2, timing_len: 3, text_pos: 7, text_len: 1 },
        Alignment { timing_pos: 5, timing_len: 0, text_pos: 8, text_len: 0 },
    ]);
    assert_eq!(
        steps,
        vec![
            TimingStep::Accept { timing: 0, text: 5 },
            TimingStep::Accept { timing: 1, text: 6 },
            TimingStep::AcceptRanged { timing_pos: 2, timing_len: 3, text_pos: 7, text_len: 1 },
        ]
    );
}

#[test]
fn no_alignments_no_steps() {
    assert!(create_pipeline(()).timing_steps(&vec![]).is_empty());
}
