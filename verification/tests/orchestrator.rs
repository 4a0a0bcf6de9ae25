use phi_tk::chartlist::{is_numeric_name, parse_chart_lines, sort_charts_newest_first, trim_str};
use phi_tk::config::{
    create_default_render_config, get_presets_file, ChartInfo, PresetStore, RenderConfig,
    RenderParams,
};
use phi_tk::ipc::{IPCEvent, ProgressTracker, Stage, WorkerSession};
use phi_tk::shell::{
    is_chart_file, parse_subcommand, select_ffmpeg, show_in_folder_command, sort_respacks,
    HostOs, RespackInfo, Subcommand,
};
use phi_tk::task::{TaskQueue, TaskStatus};

fn params(path: &str) -> RenderParams {
    RenderParams {
        path: path.to_string(),
        info: ChartInfo {
            name: "chart".to_string(),
            music: "song.ogg".to_string(),
            aspect_num: 16,
            aspect_den: 9,
        },
        config: create_default_render_config(),
    }
}

#[test]
fn default_config_matches_the_documented_defaults() {
    let c: RenderConfig = create_default_render_config();
    assert_eq!((c.resolution_w, c.resolution_h), (1920, 1080));
    assert_eq!(c.ffmpeg_preset, "medium p4 balanced");
    assert_eq!(c.ending_length_ms, -2000);
    assert_eq!(c.fps, 60);
    assert!(c.hardware_accel);
    assert_eq!(c.video_codec, "h264");
    assert_eq!(c.target_audio, 96000);
    assert_eq!(c.bitrate_control, "CRF");
    assert_eq!(c.bitrate, "28");
    assert_eq!(c.audio_format, "flac");
    assert_eq!(c.volume_music_milli, 1000);
    assert_eq!(c.player_rks_milli, 15000);
    assert!(c.toggles.particle && c.toggles.double_hint && c.toggles.ui_pause);
    assert!(!c.toggles.chart_debug && !c.toggles.fxaa);
}

#[test]
fn to_config_projects_every_scene_field() {
    let c = create_default_render_config();
    let s = c.to_config();
    assert_eq!(s.player_rks_milli, c.player_rks_milli);
    assert_eq!(s.combo, c.combo);
    assert_eq!(s.volume_music_milli, c.volume_music_milli);
    assert_eq!(s.toggles, c.toggles);
    assert_eq!(s.disable_loading, c.disable_loading);
}

#[test]
fn presets_file_lives_in_the_config_directory() {
    assert_eq!(get_presets_file("/home/u/.config/app"), "/home/u/.config/app/presets.json");
}

#[test]
fn presets_are_unique_by_name() {
    let mut store = PresetStore::new();
    assert!(store.add("hq".to_string(), create_default_render_config()).is_ok());
    assert!(store.add("hq".to_string(), create_default_render_config()).is_err());
    assert!(store.get("hq").is_some());
    assert!(store.get("lq").is_none());
    assert!(store.remove("lq").is_err());
    assert!(store.remove("hq").is_ok());
    assert!(store.get("hq").is_none());
}

#[test]
fn presets_store_the_given_configuration() {
    let mut store = PresetStore::new();
    let mut hq = create_default_render_config();
    hq.fps = 120;
    hq.bitrate = "18".to_string();
    store.add("hq".to_string(), hq).unwrap();
    assert_eq!(store.entries[0].0, "hq");
    assert_eq!(store.entries[0].1.fps, 120);
    assert_eq!(store.entries[0].1.bitrate, "18");
    let copy = store.get("hq").unwrap();
    assert_eq!(copy.fps, 120);
    assert_eq!(copy.bitrate, "18");
}

#[test]
fn removing_a_fresh_preset_undoes_adding_it() {
    let mut store = PresetStore::new();
    store.add("keep".to_string(), create_default_render_config()).unwrap();
    store.add("gone".to_string(), create_default_render_config()).unwrap();
    store.remove("gone").unwrap();
    assert_eq!(store.entries.len(), 1);
    assert_eq!(store.entries[0].0, "keep");
}

#[test]
fn jobs_queue_in_arrival_order_and_only_one_runs() {
    let mut q = TaskQueue::new();
    let a = q.post(params("a.zip"));
    let b = q.post(params("b.zip"));
    assert_eq!((a, b), (0, 1));
    let started = q.start_next();
    assert_eq!(started, Some(a));
    let views = q.views();
    assert_eq!(views[0].status, TaskStatus::Running);
    assert_eq!(views[1].status, TaskStatus::Queued);
}

#[test]
fn cancelling_a_queued_job_skips_it_without_a_worker() {
    let mut q = TaskQueue::new();
    let id = q.post(params("a.zip"));
    let kill = q.cancel(id);
    // The job goes straight from Queued to Cancelled; there is no worker
    // process to stop, and the scheduler never starts it.
    assert!(!kill);
    assert_eq!(q.views()[0].status, TaskStatus::Cancelled);
    assert_eq!(q.start_next(), None);
}

#[test]
fn cancelling_a_running_job_stops_its_worker_and_marks_cancelled() {
    let mut q = TaskQueue::new();
    let id = q.post(params("a.zip"));
    q.start_next();
    let kill = q.cancel(id);
    assert!(kill);
    // The worker exits after the termination signal; the job is Cancelled,
    // never Failed.
    q.on_worker_exit(id, false, Some("terminated".to_string()));
    assert_eq!(q.views()[0].status, TaskStatus::Cancelled);
}

#[test]
fn cancel_is_idempotent_on_terminal_jobs() {
    let mut q = TaskQueue::new();
    let id = q.post(params("a.zip"));
    q.cancel(id);
    assert!(!q.cancel(id));
    assert_eq!(q.views()[0].status, TaskStatus::Cancelled);
}

#[test]
fn worker_events_drive_progress_and_completion() {
    let mut q = TaskQueue::new();
    let id = q.post(params("a.zip"));
    q.start_next();
    q.on_event(id, IPCEvent::StartMixing);
    q.on_event(id, IPCEvent::StartRender(3));
    q.on_event(id, IPCEvent::Frame);
    q.on_event(id, IPCEvent::Frame);
    let v = q.views();
    assert_eq!((v[0].frames_done, v[0].total_frames), (2, 3));
    q.on_event(id, IPCEvent::Frame);
    q.on_event(id, IPCEvent::Done(1500));
    assert_eq!(q.views()[0].status, TaskStatus::Succeeded);
}

#[test]
fn failed_worker_marks_job_failed_not_cancelled() {
    let mut q = TaskQueue::new();
    let id = q.post(params("a.zip"));
    q.start_next();
    q.on_worker_exit(id, false, Some("encoder exited with status 1".to_string()));
    let v = q.views();
    assert_eq!(v[0].status, TaskStatus::Failed);
    assert_eq!(v[0].error.as_deref(), Some("encoder exited with status 1"));
}

#[test]
fn worker_session_emits_the_whole_stream_in_order() {
    let total = 600u64;
    let mut s = WorkerSession::new();
    s.start_mixing();
    s.start_render(total);
    for _ in 0..total {
        s.frame();
    }
    s.finish(2500);
    assert_eq!(s.events.len() as u64, total + 3);
    assert_eq!(s.events[0], IPCEvent::StartMixing);
    assert_eq!(s.events[1], IPCEvent::StartRender(total));
    for k in 2..(total as usize + 2) {
        assert_eq!(s.events[k], IPCEvent::Frame);
    }
    assert_eq!(*s.events.last().unwrap(), IPCEvent::Done(2500));
}

#[test]
fn tracker_validates_event_order() {
    let mut t = ProgressTracker::new();
    assert!(t.apply(IPCEvent::Frame).is_err());
    assert!(t.apply(IPCEvent::StartMixing).is_ok());
    assert!(t.apply(IPCEvent::StartMixing).is_err());
    assert!(t.apply(IPCEvent::StartRender(2)).is_ok());
    assert!(t.apply(IPCEvent::Frame).is_ok());
    assert!(t.apply(IPCEvent::Frame).is_ok());
    assert_eq!(t.frames, 2);
    assert!(t.apply(IPCEvent::Done(90)).is_ok());
    assert_eq!(t.stage, Stage::Finished);
    assert!(t.apply(IPCEvent::Frame).is_err());
}

#[test]
fn chart_list_parsing_commits_complete_entries() {
    let lines: Vec<String> = [
        "Name: First Song",
        "Path: 101",
        "Chart: chart.json",
        "Picture: cover.png",
        "Charter: someone",
        "#",
        "Name: No Id",
        "Chart: x.json",
        "#",
        "  ",
        "Name: Second Song",
        "Path: 202",
        "Chart: c.pec",
        "Picture: p.jpg",
        "Charter: else",
        "junk line without a colon",
        "Unknown: ignored",
    ]
        .iter()
        .map(|s| s.to_string())
        .collect();
    let charts = parse_chart_lines("/rpe", &lines);
    assert_eq!(charts.len(), 2);
    assert_eq!(charts[0].name, "First Song");
    assert_eq!(charts[0].id, "101");
    assert_eq!(charts[0].path, "/rpe/Resources/101");
    assert_eq!(charts[0].illustration, "/rpe/Resources/101/cover.png");
    assert_eq!(charts[0].charter, "someone");
    // The last entry is committed by the end of the input.
    assert_eq!(charts[1].name, "Second Song");
    assert_eq!(charts[1].path, "/rpe/Resources/202");
}

#[test]
fn trimming_and_numeric_folder_names() {
    assert_eq!(trim_str("  a b \r\n"), "a b");
    assert_eq!(trim_str(""), "");
    assert!(is_numeric_name("101"));
    assert!(!is_numeric_name(""));
    assert!(!is_numeric_name("101a"));
}

#[test]
fn charts_are_listed_newest_first() {
    let mk = |name: &str, modified: u64| phi_tk::config::RPEChartInfo {
        name: name.to_string(),
        id: String::new(),
        path: String::new(),
        illustration: String::new(),
        charter: String::new(),
        modified,
    };
    let sorted = sort_charts_newest_first(vec![mk("a", 5), mk("b", 9), mk("c", 7)]);
    let names: Vec<&str> = sorted.iter().map(|c| c.name.as_str()).collect();
    assert_eq!(names, vec!["b", "c", "a"]);
}

#[test]
fn respacks_are_listed_by_name() {
    let mk = |name: &str| RespackInfo { name: name.to_string(), path: name.to_string() };
    let sorted = sort_respacks(vec![mk("zeta"), mk("alpha"), mk("midway")]);
    let names: Vec<&str> = sorted.iter().map(|r| r.name.as_str()).collect();
    assert_eq!(names, vec!["alpha", "midway", "zeta"]);
}

#[test]
fn reveal_command_spellings_per_system() {
    let c = show_in_folder_command(HostOs::Windows, "C:\\out\\video.mp4");
    assert_eq!(c.program, "explorer");
    assert_eq!(c.args, vec!["/select,", "C:\\out\\video.mp4"]);
    let c = show_in_folder_command(HostOs::Linux, "/out/video.mp4");
    assert_eq!(c.program, "gdbus");
    assert_eq!(c.args[8], "['file:///out/video.mp4']");
    let c = show_in_folder_command(HostOs::MacOs, "/out/video.mp4");
    assert_eq!(c.program, "open");
    assert_eq!(c.args, vec!["-R", "/out/video.mp4"]);
}

#[test]
fn chart_files_are_recognised_by_extension() {
    assert!(is_chart_file("song.zip"));
    assert!(is_chart_file("chart.json"));
    assert!(is_chart_file("project.pek"));
    assert!(!is_chart_file("readme.txt"));
    assert!(!is_chart_file("zip"));
}

#[test]
fn first_responding_encoder_binary_wins() {
    let candidates = vec![
        ("/app/ffmpeg".to_string(), false),
        ("/usr/bin/ffmpeg".to_string(), true),
        ("/opt/ffmpeg".to_string(), true),
    ];
    assert_eq!(select_ffmpeg(&candidates), Some("/usr/bin/ffmpeg".to_string()));
    assert_eq!(select_ffmpeg(&vec![("/app/ffmpeg".to_string(), false)]), None);
}

#[test]
fn subcommands_select_the_worker_mode() {
    assert_eq!(parse_subcommand("render"), Some(Subcommand::Render));
    assert_eq!(parse_subcommand("preview"), Some(Subcommand::Preview));
    assert_eq!(parse_subcommand("frobnicate"), None);
}

#[test]
fn batch_submission_enqueues_every_chart() {
    let mut q = TaskQueue::new();
    let mut presets = PresetStore::new();
    let mut hq = create_default_render_config();
    hq.fps = 120;
    presets.add("hq".to_string(), hq).unwrap();
    phi_tk::task::batch_add_tasks(&mut q, &presets, vec![
        ("a.zip".to_string(), "hq".to_string()),
        ("b.zip".to_string(), "missing".to_string()),
    ]);
    let v = q.views();
    assert_eq!(v.len(), 2);
    assert_eq!(v[0].status, TaskStatus::Queued);
    assert_eq!(v[1].status, TaskStatus::Queued);
    // The first job carries the stored preset, the second the default.
    assert_eq!(q.tasks[0].params.config.fps, 120);
    assert_eq!(q.tasks[1].params.config.fps, 60);
    assert_eq!(q.tasks[0].params.path, "a.zip");
    assert_eq!(q.tasks[0].params.info.aspect_num, 16);
    assert_eq!(q.tasks[0].params.info.aspect_den, 9);
}
