use yt_dlp_clipper::binaries::{
    dir_size, pick_file, resolve_ffmpeg, resolve_ytdlp, seeded, Candidate, Entry, ToolChoice,
};
use yt_dlp_clipper::cache::{videos_of, CacheBrowser, CacheEntry};
use yt_dlp_clipper::cli::{parse_args, Start};
use yt_dlp_clipper::clip::Clip;
use yt_dlp_clipper::double::Double;
use yt_dlp_clipper::download::DownloadForm;
use yt_dlp_clipper::export::{AudioFormat, ExportError, Mode, VideoFormat};
use yt_dlp_clipper::jobs::{export_report, saving_text, Jobs, Msg, Next, Reply, UpdateState};
use yt_dlp_clipper::save::{
    can_save, downloaded_title, export_heights, export_spec, height_label, saved_audio_extension,
    source_label, suggested_name, ExportOptions,
};
use yt_dlp_clipper::updater::AvailableRelease;
use yt_dlp_clipper::ytdlp::{Format, VideoInfo};

fn busy() -> Jobs {
    let mut jobs = Jobs::new();
    jobs.start_fetch();
    jobs
}

#[test]
fn progress_keeps_a_job_going() {
    let mut jobs = Jobs::new();
    jobs.start_download();
    assert_eq!((jobs.status.as_str(), jobs.progress), ("downloading…", Some((0, 0))));
    let progress = Reply::Msg(Msg::Progress { downloaded: 1, total: 2 });
    assert_eq!(jobs.poll(&progress), Next::AskAgain);
    assert_eq!(jobs.progress, Some((1, 2)));
    assert!(jobs.is_busy);
    assert_eq!(jobs.poll(&Reply::Empty), Next::Wait);
    assert!(jobs.is_busy);
    assert_eq!(jobs.poll(&Reply::Disconnected), Next::Finished);
    assert!(!jobs.is_busy);
}

#[test]
fn every_ending_is_reported() {
    let mut jobs = busy();
    assert_eq!(jobs.status, "fetching…");
    jobs.last_error = Some("old".into());
    let info = Reply::Msg(Msg::Info { title: "Cats".into(), formats: 12 });
    assert_eq!(jobs.poll(&info), Next::ShowInfo);
    assert_eq!(jobs.status, "Cats — 12 formats");
    assert_eq!(jobs.last_error, None);
    assert!(!jobs.is_busy);

    let mut jobs = busy();
    assert_eq!(jobs.poll(&Reply::Msg(Msg::Downloaded("/a.mp4".into()))), Next::Open);
    assert_eq!(jobs.status, "downloaded: /a.mp4");

    let mut jobs = Jobs::new();
    jobs.start_export("/out.mp4".into());
    assert!(jobs.exporting);
    assert_eq!(jobs.poll(&Reply::Msg(Msg::Exported("/out.mp4".into()))), Next::Reveal);
    assert_eq!(jobs.status, "saved: /out.mp4");
    assert_eq!(jobs.saved_path.as_deref(), Some("/out.mp4"));
    assert!(!jobs.exporting && jobs.export_path.is_none());

    let mut jobs = Jobs::new();
    jobs.start_export("/out.mp4".into());
    assert_eq!(jobs.poll(&Reply::Msg(Msg::ExportCanceled("/out.mp4".into()))), Next::Remove);
    assert_eq!(jobs.status, "export canceled");
    assert_eq!(jobs.saved_path, None);

    let mut jobs = busy();
    assert_eq!(jobs.poll(&Reply::Msg(Msg::Error("it broke".into()))), Next::Finished);
    assert_eq!((jobs.status.as_str(), jobs.last_error.as_deref()), ("error", Some("it broke")));

    jobs.abandon();
    assert_eq!(jobs.last_error, None);
    jobs.decode_failed("codec".into());
    assert_eq!(jobs.status, "decode error");
}

#[test]
fn an_export_reports_how_it_ended() {
    assert!(matches!(export_report("/o".into(), None, true), Msg::Exported(_)));
    assert!(matches!(export_report("/o".into(), Some("e".into()), true), Msg::ExportCanceled(_)));
    assert!(matches!(export_report("/o".into(), Some("e".into()), false), Msg::Error(_)));
}

#[test]
fn a_running_export_says_how_far_it_is() {
    assert_eq!(saving_text(0), "compiling & saving…");
    assert_eq!(saving_text(2_500_000), "compiling & saving… 2.5 MB so far");
    let mut jobs = Jobs::new();
    jobs.start_export("out.mp4".into());
    jobs.cancel_export();
    assert_eq!(jobs.status, "canceling…");
    assert!(jobs.is_busy && jobs.exporting);
}

#[test]
fn updates_run_once_at_a_time() {
    let mut jobs = Jobs::new();
    jobs.note_version(Ok("2025".into()));
    jobs.note_version(Ok("2026".into()));
    assert_eq!(jobs.ytdlp_version.as_deref(), Some("2025"));
    assert!(jobs.start_ytdlp_update());
    assert!(!jobs.start_ytdlp_update());
    assert_eq!(jobs.status, "updating yt-dlp…");
    jobs.finish_ytdlp_update(Some(Ok("up to date".into())));
    assert_eq!(jobs.status, "yt-dlp: up to date");
    assert_eq!(jobs.ytdlp_version, None);
    jobs.note_version(Err("gone".into()));
    assert_eq!(jobs.ytdlp_version.as_deref(), Some("unavailable (gone)"));
    assert!(jobs.start_ytdlp_update());
    jobs.finish_ytdlp_update(Some(Err("offline".into())));
    assert_eq!(jobs.last_error.as_deref(), Some("offline"));
    assert!(jobs.start_ytdlp_update());
    jobs.finish_ytdlp_update(None);
    assert!(!jobs.ytdlp_updating);
}

#[test]
fn a_check_for_updates_ends_in_one_of_three_ways() {
    let mut jobs = Jobs::new();
    assert!(jobs.start_update_check());
    assert!(!jobs.start_update_check());
    jobs.finish_update_check(Some(Ok(None)));
    assert!(matches!(jobs.update_state, UpdateState::UpToDate));
    let release = AvailableRelease {
        version: "9".into(),
        notes: String::new(),
        page_url: String::new(),
    };
    jobs.finish_update_check(Some(Ok(Some(release))));
    assert!(matches!(jobs.update_state, UpdateState::Available(_)));
    jobs.finish_update_check(None);
    match &jobs.update_state {
        UpdateState::Failed(e) => assert_eq!(e, "the update check stopped"),
        _ => unreachable!(),
    }
    jobs.finish_update_check(Some(Err("offline".into())));
    assert!(matches!(jobs.update_state, UpdateState::Failed(_)));
}

fn candidate(path: &str, is_file: bool) -> Candidate {
    Candidate { path: path.into(), is_file }
}

#[test]
fn tools_are_looked_for_in_order() {
    let found = pick_file(&vec![candidate("/app/bin/x", false), candidate("/app/x", true)]);
    assert_eq!(found.as_deref(), Some("/app/x"));
    assert_eq!(pick_file(&vec![candidate("/a", false)]), None);
    let both = (Some("/bundled".to_owned()), Some("/path".to_owned()));
    assert_eq!(resolve_ffmpeg(both.0.clone(), both.1.clone()).as_deref(), Some("/bundled"));
    assert_eq!(resolve_ffmpeg(None, both.1.clone()).as_deref(), Some("/path"));
    match resolve_ytdlp(Some(candidate("/managed", true)), both.0.clone(), both.1.clone()) {
        ToolChoice::Run(path) => assert_eq!(path, "/managed"),
        _ => unreachable!(),
    }
    match resolve_ytdlp(Some(candidate("/managed", false)), None, both.1.clone()) {
        ToolChoice::Seed { source, managed } => {
            assert_eq!((source.as_str(), managed.as_str()), ("/path", "/managed"));
            assert_eq!(seeded(source.clone(), managed.clone(), true), "/managed");
            assert_eq!(seeded(source, managed, false), "/path");
        }
        _ => unreachable!(),
    }
    match resolve_ytdlp(None, both.0, None) {
        ToolChoice::Run(path) => assert_eq!(path, "/bundled"),
        _ => unreachable!(),
    }
    assert!(matches!(resolve_ytdlp(None, None, None), ToolChoice::Missing));
}

#[test]
fn folders_weigh_their_files() {
    let entry = |is_file: bool, len: u64| Entry { is_file, len };
    assert_eq!(dir_size(&vec![entry(true, 5), entry(false, 100), entry(true, 7)]), 12);
    assert_eq!(dir_size(&vec![]), 0);
}

#[test]
fn thumbnails_find_their_entries() {
    let entry = |path: &str| CacheEntry {
        path: path.into(),
        name: path.into(),
        size: 1,
        duration: None,
    };
    let mut browser = CacheBrowser::new();
    browser.open(vec![entry("a"), entry("b"), entry("b")]);
    assert!(browser.is_open);
    let secs = Double { bits: 3.0f64.to_bits() };
    assert_eq!(browser.attach("b", secs), Some(1));
    assert_eq!(browser.attach("c", secs), None);
    assert_eq!(browser.entries[1].duration, Some(secs));
    assert_eq!(browser.entries[2].duration, None);
    browser.close();
    assert!(!browser.is_open && browser.entries.is_empty());
}

#[test]
fn thumbnails_find_their_entries_by_place() {
    let entry = |path: &str| CacheEntry {
        path: path.into(),
        name: String::new(),
        size: 0,
        duration: None,
    };
    let secs = Double { bits: 2.0f64.to_bits() };
    let mut browser = CacheBrowser::new();
    browser.open(vec![entry("c/b.mp4"), entry("c/a.mp4"), entry("./c/d.mp4")]);
    assert_eq!(browser.attach("c//a.mp4", secs), Some(1));
    assert_eq!(browser.attach("c/./b.mp4/", secs), Some(0));
    assert_eq!(browser.attach("c/d.mp4", secs), None);
    assert_eq!(browser.attach("././c/d.mp4/.", secs), Some(2));
    assert_eq!(browser.attach("/c/a.mp4", secs), None);
    assert_eq!(browser.attach("c/A.mp4", secs), None);
    assert_eq!(browser.attach("c/../c/a.mp4", secs), None);
}

#[test]
fn the_command_line_is_read() {
    let args = |list: &[&str]| list.iter().map(|s| s.to_string()).collect::<Vec<String>>();
    assert!(matches!(parse_args(&args(&[])), Start::Window(None)));
    match parse_args(&args(&["a.mp4", "b.mp4"])) {
        Start::Window(path) => assert_eq!(path.as_deref(), Some("a.mp4")),
        Start::SelfTest => unreachable!(),
    }
    assert!(matches!(parse_args(&args(&["a.mp4", "--self-test"])), Start::SelfTest));
}

#[test]
fn the_form_knows_when_to_fetch() {
    let mut form = DownloadForm::new();
    assert!(form.want_video && form.want_audio);
    assert!(!form.can_fetch(false));
    form.url = "https://example.com/v".into();
    assert!(form.can_fetch(false) && !form.can_fetch(true));
    form.selected_height = Some(720);
    assert_eq!(
        form.selector().as_deref(),
        Some("bestvideo[height<=720]+bestaudio/best[height<=720]")
    );
    form.describe(VideoInfo { title: "t".into(), formats: vec![] });
    assert_eq!(form.selected_height, None);
    assert!(form.heights().is_empty());
    form.selected_height = Some(1);
    form.forget();
    assert!(form.info.is_none() && form.selected_height.is_none());
}

#[test]
fn the_tallest_height_is_left_to_the_source() {
    let format = |height: Option<u32>| Format {
        format_id: "1".into(),
        ext: "mp4".into(),
        resolution: None,
        vcodec: Some("avc1".into()),
        acodec: None,
        filesize: None,
        filesize_approx: None,
        height,
        abr: None,
    };
    let mut form = DownloadForm::new();
    assert!(form.lower_heights().is_empty());
    let formats = vec![format(Some(480)), format(Some(1080)), format(None), format(Some(720))];
    form.describe(VideoInfo { title: "t".into(), formats });
    assert_eq!(form.heights(), [1080, 720, 480]);
    assert_eq!(form.lower_heights(), [720, 480]);
    form.describe(VideoInfo { title: "t".into(), formats: vec![format(Some(360))] });
    assert_eq!(form.heights(), [360]);
    assert!(form.lower_heights().is_empty());
}

#[test]
fn the_cache_lists_its_videos() {
    let listed = ["/c/b.mp4", "/c/a.part", "/c/c.MKV", "/c/notes", "C:\\c\\d.ts"];
    let listed: Vec<String> = listed.iter().map(|path| path.to_string()).collect();
    assert_eq!(videos_of(&listed), ["/c/b.mp4", "/c/c.MKV", "C:\\c\\d.ts"]);
    assert!(videos_of(&vec![]).is_empty());
}

#[test]
fn menus_never_upscale() {
    assert_eq!(export_heights(1080), [720, 480, 360, 240, 144]);
    assert_eq!(export_heights(4000), [2160, 1440, 1080, 720, 480, 360, 240, 144]);
    assert!(export_heights(144).is_empty());
    assert_eq!(height_label(1080), "1080p");
    assert_eq!(source_label(Some(2160)), "Source (2160p)");
    assert_eq!(source_label(None), "Source");
}

#[test]
fn saving_needs_a_file_and_time() {
    let can = can_save(true, false, true);
    assert!(can.audio && can.video);
    let can = can_save(true, false, false);
    assert!(can.audio && !can.video);
    let can = can_save(true, true, true);
    assert!(!can.audio && !can.video);
    assert!(!can_save(false, false, true).audio);
    assert_eq!(saved_audio_extension(Ok("opus")), "opus");
    assert_eq!(saved_audio_extension(Err(ExportError::NoAudioStream)), "mp3");
}

#[test]
fn exports_take_over_the_choices() {
    let mut options = ExportOptions::new();
    assert_eq!(options.height_text(), "Original");
    assert!(options.compat_applies());
    options.scale_height = Some(480);
    assert_eq!(options.height_text(), "480p");
    let mut clip = Clip::new();
    clip.cover(Double { bits: 9.0f64.to_bits() });
    let spec = export_spec("in".into(), "out.mp4".into(), &clip, Mode::Full, &options, true);
    assert_eq!((spec.input.as_str(), spec.output.as_str()), ("in", "out.mp4"));
    assert_eq!(spec.scale_height, Some(480));
    assert_eq!((spec.start_secs, spec.end_secs), (clip.in_secs, clip.out_secs));
    let mode = Mode::AudioOnly(AudioFormat::Mp3);
    let spec = export_spec("in".into(), "out.mp3".into(), &clip, mode, &options, false);
    assert_eq!((spec.scale_height, spec.compatibility_mode), (None, false));
    options.video_format = VideoFormat::Mkv;
    assert!(!options.compat_applies());
}

#[test]
fn files_are_named_after_the_video() {
    assert_eq!(suggested_name(&Some("A/B: C?".into()), "mp4"), "A_B_ C_.mp4");
    assert_eq!(suggested_name(&None, "mp3"), "video.mp3");
    let title = |t: &str| Some(t.to_owned());
    assert_eq!(downloaded_title(&title("Cats"), title("cats [x]")), title("Cats"));
    assert_eq!(downloaded_title(&title(""), title("cats [x]")), title("cats [x]"));
    assert_eq!(downloaded_title(&None, None), None);
}
