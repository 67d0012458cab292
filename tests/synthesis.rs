use clipforge::composite::{composite_args, stacking_order, TrackExport};
use clipforge::concat::{
    parse_corner, plan_concatenation, scratch_dir_name, ClipSegment, ConcatFailure, ConcatStep, Corner,
    PipOverlay,
};
use clipforge::error::ValidationError;
use clipforge::tier::{parse_tier, ResolutionTier};
use clipforge::timecode::format_timestamp;
use clipforge::trim::trim_args;

fn strings(v: &[&str]) -> Vec<String> {
    v.iter().map(|s| s.to_string()).collect()
}

fn track(path: &str, z: i32) -> TrackExport {
    TrackExport {
        path: path.to_string(),
        position_x: 0,
        position_y: 0,
        width: 1920,
        height: 1080,
        opacity_milli: 1000,
        volume_milli: 1000,
        z_index: z,
    }
}

#[test]
fn trim_at_720p_scales_and_reencodes() {
    let args = trim_args("in.mp4", "out.mp4", 0, 5000, Some("720p")).unwrap();
    assert_eq!(
        args,
        strings(&[
            "-y", "-ss", "00:00:00.000", "-i", "in.mp4", "-t", "5", "-vf", "scale=1280:720",
            "-c:v", "libx264", "-preset", "fast", "-b:v", "2500k", "-avoid_negative_ts",
            "make_zero", "out.mp4",
        ])
    );
    assert!(!args.contains(&"copy".to_string()));
}

#[test]
fn trim_at_source_copies_streams() {
    let args = trim_args("in.mp4", "out.mp4", 2500, 10000, Some("source")).unwrap();
    assert_eq!(
        args,
        strings(&[
            "-y", "-ss", "00:00:02.500", "-i", "in.mp4", "-t", "7.5", "-c", "copy",
            "-avoid_negative_ts", "make_zero", "out.mp4",
        ])
    );
    assert!(!args.iter().any(|a| a.starts_with("scale=")));
}

#[test]
fn trim_without_tier_copies_streams() {
    let args = trim_args("a.mov", "b.mov", 0, 1250, None).unwrap();
    assert_eq!(args[6], "1.25");
    assert_eq!(args[7], "-c");
    assert_eq!(args[8], "copy");
}

#[test]
fn trim_at_1080p_uses_5000k() {
    let args = trim_args("in.mp4", "out.mp4", 1000, 2001, Some("1080p")).unwrap();
    assert_eq!(args[6], "1.001");
    assert_eq!(args[8], "scale=1920:1080");
    assert_eq!(args[14], "5000k");
}

#[test]
fn trim_rejects_unknown_tier() {
    assert_eq!(
        trim_args("in.mp4", "out.mp4", 0, 5000, Some("4k")),
        Err(ValidationError::InvalidResolution("4k".to_string()))
    );
}

#[test]
fn trim_rejects_empty_range() {
    assert_eq!(
        trim_args("in.mp4", "out.mp4", 5000, 5000, Some("720p")),
        Err(ValidationError::InvalidTimeRange)
    );
    assert_eq!(
        trim_args("in.mp4", "out.mp4", 6000, 5000, None),
        Err(ValidationError::InvalidTimeRange)
    );
}

#[test]
fn timestamps_are_hours_minutes_seconds_millis() {
    assert_eq!(format_timestamp(0), "00:00:00.000");
    assert_eq!(format_timestamp(2500), "00:00:02.500");
    assert_eq!(format_timestamp(3_723_004), "01:02:03.004");
    assert_eq!(format_timestamp(360_000_000), "100:00:00.000");
}

#[test]
fn timestamp_reads_back_as_the_same_time() {
    for ms in [0u64, 1, 999, 59_999, 60_000, 3_599_999, 3_600_000, 86_399_999, 123_456_789, u64::MAX] {
        let text = format_timestamp(ms);
        let n = text.len();
        let hours: u64 = text[..n - 10].parse().unwrap();
        let minutes: u64 = text[n - 9..n - 7].parse().unwrap();
        let seconds: u64 = text[n - 6..n - 4].parse().unwrap();
        let millis: u64 = text[n - 3..].parse().unwrap();
        assert_eq!(hours * 3_600_000 + minutes * 60_000 + seconds * 1000 + millis, ms);
    }
}

#[test]
fn tier_table_is_fixed() {
    for _ in 0..2 {
        let t = parse_tier(Some("720p")).unwrap();
        assert_eq!(t, ResolutionTier::Hd720);
        assert_eq!(t.fixed_size(), Some((1280, 720)));
        assert_eq!(t.bitrate_text(), "2500k");
        let t = parse_tier(Some("1080p")).unwrap();
        assert_eq!(t.fixed_size(), Some((1920, 1080)));
        assert_eq!(t.bitrate_kbps(), 5000);
        let t = parse_tier(Some("source")).unwrap();
        assert_eq!(t.fixed_size(), None);
        assert_eq!(t.bitrate_text(), "8000k");
    }
    assert_eq!(parse_tier(None), Ok(ResolutionTier::Source));
    assert_eq!(
        parse_tier(Some("720")),
        Err(ValidationError::InvalidResolution("720".to_string()))
    );
}

#[test]
fn concat_two_clips_without_overlay() {
    let clips = vec![
        ClipSegment { path: "a.mp4".to_string(), start_ms: 0, end_ms: 2000 },
        ClipSegment { path: "b.mp4".to_string(), start_ms: 1500, end_ms: 4000 },
    ];
    let plan = plan_concatenation(&clips, "/tmp/work", "out.mp4", None, None).unwrap();
    assert_eq!(plan.list_document.lines().count(), 2);
    assert_eq!(
        plan.list_document,
        "file '/tmp/work/segment_0.mp4'\nfile '/tmp/work/segment_1.mp4'"
    );
    assert_eq!(plan.list_path, "/tmp/work/concat_list.txt");
    assert_eq!(plan.final_commands.len(), 1);
    assert_eq!(
        plan.final_commands[0],
        strings(&[
            "-y", "-f", "concat", "-safe", "0", "-i", "/tmp/work/concat_list.txt", "-c", "copy",
            "out.mp4",
        ])
    );
    assert_eq!(plan.segment_commands.len(), 2);
    assert_eq!(
        plan.segment_commands[1],
        strings(&[
            "-y", "-ss", "00:00:01.500", "-i", "b.mp4", "-t", "00:00:02.500", "-c:v", "libx264",
            "-preset", "fast", "-crf", "18", "-c:a", "aac", "-b:a", "192k",
            "/tmp/work/segment_1.mp4",
        ])
    );
}

#[test]
fn concat_segments_scale_to_tier_height() {
    let clips = vec![ClipSegment { path: "a.mp4".to_string(), start_ms: 0, end_ms: 1000 }];
    let plan = plan_concatenation(&clips, "w", "o.mp4", Some("720p"), None).unwrap();
    let cmd = &plan.segment_commands[0];
    assert_eq!(cmd[cmd.len() - 3], "-vf");
    assert_eq!(cmd[cmd.len() - 2], "scale=-2:720");
    assert_eq!(cmd[cmd.len() - 1], "w/segment_0.mp4");
}

#[test]
fn concat_with_overlay_runs_two_final_commands() {
    let clips = vec![ClipSegment { path: "a.mp4".to_string(), start_ms: 0, end_ms: 9000 }];
    let pip = PipOverlay {
        path: "cam.mp4".to_string(),
        offset_ms: 1000,
        duration_ms: 5000,
        volume_milli: 500,
        corner: parse_corner("top-right"),
        size_percent: 25,
    };
    let plan = plan_concatenation(&clips, "w", "o.mp4", None, Some(&pip)).unwrap();
    assert_eq!(plan.final_commands.len(), 2);
    assert_eq!(plan.final_commands[0].last().unwrap(), "w/temp_concat.mp4");
    assert_eq!(
        plan.final_commands[1],
        strings(&[
            "-y", "-i", "w/temp_concat.mp4", "-i", "cam.mp4", "-filter_complex",
            "[1:v]scale=iw*0.25:ih*0.25[pip];[0:v][pip]overlay=main_w-overlay_w-20:20:enable='between(t,1,6)'[v];[0:a][1:a]amix=inputs=2:duration=first:weights=1 0.5[a]",
            "-map", "[v]", "-map", "[a]", "-c:v", "libx264", "-preset", "fast", "-crf", "18",
            "-c:a", "aac", "-b:a", "192k", "o.mp4",
        ])
    );
}

#[test]
fn corner_names_fall_back_to_bottom_right() {
    assert_eq!(parse_corner("top-left"), Corner::TopLeft);
    assert_eq!(parse_corner("bottom-left"), Corner::BottomLeft);
    assert_eq!(parse_corner("bottom-right"), Corner::BottomRight);
    assert_eq!(parse_corner("middle"), Corner::BottomRight);
}

#[test]
fn concat_rejections() {
    let none: Vec<ClipSegment> = Vec::new();
    assert!(matches!(
        plan_concatenation(&none, "w", "o", None, None),
        Err(ValidationError::NoClips)
    ));
    let bad = vec![ClipSegment { path: "a".to_string(), start_ms: 10, end_ms: 10 }];
    assert!(matches!(
        plan_concatenation(&bad, "w", "o", None, None),
        Err(ValidationError::InvalidTimeRange)
    ));
    let good = vec![ClipSegment { path: "a".to_string(), start_ms: 0, end_ms: 10 }];
    assert!(matches!(
        plan_concatenation(&good, "w", "o", Some("8k"), None),
        Err(ValidationError::InvalidResolution(_))
    ));
    let pip = PipOverlay {
        path: "p".to_string(),
        offset_ms: 0,
        duration_ms: 0,
        volume_milli: 1000,
        corner: Corner::TopLeft,
        size_percent: 50,
    };
    assert!(matches!(
        plan_concatenation(&good, "w", "o", None, Some(&pip)),
        Err(ValidationError::InvalidOverlay)
    ));
}

#[test]
fn scratch_directory_is_named_by_process() {
    assert_eq!(scratch_dir_name(4242), "clipforge_4242");
}

#[test]
fn composite_without_tracks_is_rejected() {
    let tracks: Vec<TrackExport> = Vec::new();
    assert_eq!(
        composite_args("out.mp4", &tracks, 1920, 1080, Some("720p")),
        Err(ValidationError::NoTracks)
    );
    assert_eq!(
        composite_args("out.mp4", &tracks, 1920, 1080, Some("nonsense")),
        Err(ValidationError::NoTracks)
    );
}

#[test]
fn composite_single_track_passes_audio_through() {
    let mut t = track("a.mp4", 0);
    t.volume_milli = 500;
    let args = composite_args("out.mp4", &vec![t], 1920, 1080, Some("720p")).unwrap();
    assert_eq!(
        args,
        strings(&[
            "-y", "-i", "a.mp4", "-filter_complex",
            "color=c=black:s=1280x720:d=30[bg];[0:v]scale=1280:720,format=yuva420p,colorchannelmixer=aa=1[v0];[0:a]volume=0.5[a0];[bg][v0]overlay=x=0:y=0[vout];[a0]anull[aout]",
            "-map", "[vout]", "-map", "[aout]", "-c:v", "libx264", "-preset", "fast", "-b:v",
            "2500k", "-c:a", "aac", "-b:a", "192k", "-pix_fmt", "yuv420p", "out.mp4",
        ])
    );
}

#[test]
fn composite_stacks_by_z_index() {
    let tracks = vec![track("top.mp4", 2), track("bottom.mp4", 0), track("middle.mp4", 1)];
    assert_eq!(stacking_order(&tracks), vec![1, 2, 0]);
    let args = composite_args("o.mp4", &tracks, 1920, 1080, None).unwrap();
    assert_eq!(&args[1..7], &strings(&["-i", "bottom.mp4", "-i", "middle.mp4", "-i", "top.mp4"])[..]);
    let graph = &args[8];
    assert!(graph.contains("[bg][v0]overlay=x=0:y=0[tmp0]"));
    assert!(graph.contains(";[tmp0][v1]overlay=x=0:y=0[tmp1]"));
    assert!(graph.contains(";[tmp1][v2]overlay=x=0:y=0[vout]"));
    assert_eq!(graph.matches("overlay=").count(), 3);
    assert!(graph.ends_with(";[a0][a1][a2]amix=inputs=3:duration=longest[aout]"));
}

#[test]
fn composite_equal_z_keeps_request_order() {
    let tracks = vec![track("a", 1), track("b", 0), track("c", 1), track("d", 0)];
    assert_eq!(stacking_order(&tracks), vec![1, 3, 0, 2]);
}

#[test]
fn composite_scales_positions_from_canvas() {
    let t = TrackExport {
        path: "a.mp4".to_string(),
        position_x: 100,
        position_y: -50,
        width: 640,
        height: 360,
        opacity_milli: 750,
        volume_milli: 1000,
        z_index: 0,
    };
    let args = composite_args("o.mp4", &vec![t], 1280, 720, Some("1080p")).unwrap();
    let graph = &args[4];
    assert!(graph.starts_with("color=c=black:s=1920x1080:d=30[bg];[0:v]scale=960:540,format=yuva420p,colorchannelmixer=aa=0.75[v0];[0:a]volume=1[a0];"));
    assert!(graph.contains("[bg][v0]overlay=x=630:y=195[vout]"));
}

#[test]
fn composite_rejections() {
    let tracks = vec![track("a", 0)];
    assert_eq!(
        composite_args("o", &tracks, 1920, 1080, Some("2k")),
        Err(ValidationError::InvalidResolution("2k".to_string()))
    );
    assert_eq!(composite_args("o", &tracks, 0, 1080, None), Err(ValidationError::InvalidCanvas));
    let mut loud = track("a", 0);
    loud.volume_milli = 1001;
    assert_eq!(
        composite_args("o", &vec![loud], 1920, 1080, None),
        Err(ValidationError::InvalidTrack)
    );
}

#[test]
fn composite_saturates_oversized_tracks() {
    let t = TrackExport {
        path: "big.mp4".to_string(),
        position_x: 0,
        position_y: 0,
        width: i32::MAX,
        height: 1,
        opacity_milli: 0,
        volume_milli: 0,
        z_index: 0,
    };
    let args = composite_args("o.mp4", &vec![t], 1, 1, Some("720p")).unwrap();
    let graph = &args[4];
    assert!(graph.contains("[0:v]scale=2147483647:720,format=yuva420p,colorchannelmixer=aa=0[v0]"));
    assert!(graph.contains("[0:a]volume=0[a0]"));
    assert!(graph.contains("[bg][v0]overlay=x=-1073741183:y=0[vout]"));
}

#[test]
fn trim_of_longest_range() {
    let args = trim_args("in", "out", 0, u64::MAX, None).unwrap();
    assert_eq!(args[2], "00:00:00.000");
    assert_eq!(args[6], "18446744073709551.615");
}

#[test]
fn trim_reports_unknown_tier_before_range() {
    assert_eq!(
        trim_args("in.mp4", "out.mp4", 5000, 0, Some("4k")),
        Err(ValidationError::InvalidResolution("4k".to_string()))
    );
}

#[test]
fn concat_run_steps_in_order_and_stops_at_first_failure() {
    let clips = vec![
        ClipSegment { path: "a.mp4".to_string(), start_ms: 0, end_ms: 1000 },
        ClipSegment { path: "b.mp4".to_string(), start_ms: 0, end_ms: 1000 },
    ];
    let plan = plan_concatenation(&clips, "w", "o.mp4", None, None).unwrap();
    let mut step = plan.first_step();
    let mut seen = Vec::new();
    while !matches!(step, ConcatStep::Finish(_)) {
        seen.push(step);
        step = plan.next_step(step, true);
    }
    assert_eq!(
        seen,
        vec![ConcatStep::RunSegment(0), ConcatStep::RunSegment(1), ConcatStep::WriteList, ConcatStep::RunFinal(0)]
    );
    assert_eq!(step, ConcatStep::Finish(Ok(())));
    assert_eq!(
        plan.next_step(ConcatStep::RunSegment(1), false),
        ConcatStep::Finish(Err(ConcatFailure::SegmentFailed(1)))
    );
    assert_eq!(
        plan.next_step(ConcatStep::WriteList, false),
        ConcatStep::Finish(Err(ConcatFailure::ListNotWritten))
    );
    assert_eq!(
        plan.next_step(ConcatStep::RunFinal(0), false),
        ConcatStep::Finish(Err(ConcatFailure::FinalFailed(0)))
    );
}
