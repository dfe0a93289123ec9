use yt_dlp_clipper::cookies::{Browser, CookieSource};
use yt_dlp_clipper::double::Double;
use yt_dlp_clipper::ytdlp::{
    available_heights, best_audio, best_video, check_fetched, download_args, estimated_size,
    fetch_info_args, mentions_update, read_line, resolution_selector, set_binary, set_ffmpeg,
    set_js_runtime, suggests_update, update, version, Download, Format, Line, Output, Tools,
    VideoInfo, YtdlpError, OUTPUT_NAME,
};

fn double(value: f64) -> Double {
    Double { bits: value.to_bits() }
}

fn format(id: &str, vcodec: Option<&str>, acodec: Option<&str>) -> Format {
    Format {
        format_id: id.into(),
        ext: "mp4".into(),
        resolution: None,
        vcodec: vcodec.map(String::from),
        acodec: acodec.map(String::from),
        filesize: None,
        filesize_approx: None,
        height: None,
        abr: None,
    }
}

fn video(id: &str, height: u32, bytes: u64) -> Format {
    Format {
        height: Some(height),
        filesize: Some(bytes),
        ..format(id, Some("avc1"), Some("none"))
    }
}

fn sound(id: &str, abr: Option<f64>, bytes: u64) -> Format {
    Format {
        abr: abr.map(double),
        filesize_approx: Some(bytes),
        ..format(id, Some("none"), Some("opus"))
    }
}

fn info(formats: Vec<Format>) -> VideoInfo {
    VideoInfo { title: "A video".into(), formats }
}

#[test]
fn flags_update_hints() {
    // Extractor breakage and the explicit `-U` nudge yt-dlp prints.
    assert!(suggests_update(
        "ERROR: [youtube] dQw4: Unable to extract. Confirm you are on the \
         latest version using yt-dlp -U"
    ));
    assert!(suggests_update("WARNING: You are using an outdated version; please update"));
}

#[test]
fn ignores_unrelated_errors() {
    assert!(!suggests_update("ERROR: unable to open file: permission denied"));
    assert!(!suggests_update("ERROR: [generic] None: Requested format is not available"));
}

#[test]
fn update_hints_are_found_in_any_case() {
    assert!(suggests_update("PLEASE UPDATE"));
    assert!(suggests_update("Run YT-DLP -U now"));
    // A Kelvin sign becomes a plain k, so the text is really lowered by Unicode.
    assert!(suggests_update("\u{212a} LATEST VERSION"));
    assert!(!suggests_update("please updat"));
    assert!(mentions_update("the latest version"));
    assert!(!mentions_update("The Latest Version"));
}

#[test]
fn download_passes_ffmpeg_location() {
    let ffmpeg = "/opt/yank/ffmpeg-sentinel";
    let mut tools = Tools::new();
    set_binary(&mut tools, "/tmp/fake-yt-dlp".into());
    set_ffmpeg(&mut tools, ffmpeg.into());
    let args = download_args(
        &tools,
        "https://example.com/v",
        &Some("bestvideo+bestaudio".into()),
        &None,
        "/tmp/%(title)s [%(id)s].%(ext)s",
    );
    let i = args
        .iter()
        .position(|a| *a == "--ffmpeg-location")
        .expect("download must pass --ffmpeg-location");
    assert_eq!(args[i + 1], ffmpeg, "--ffmpeg-location must carry the resolved ffmpeg path");
}

#[test]
fn download_passes_js_runtimes_when_qjs_resolved() {
    let qjs = "/opt/yt-dlp-clipper/qjs-sentinel";
    let mut tools = Tools::new();
    set_js_runtime(&mut tools, qjs.into());
    let args = download_args(&tools, "https://example.com/v", &None, &None, "/tmp/x");
    let i = args
        .iter()
        .position(|a| *a == "--js-runtimes")
        .expect("download must pass --js-runtimes when a QuickJS binary was resolved");
    assert_eq!(
        args[i + 1],
        format!("quickjs:{}", qjs),
        "--js-runtimes must carry the resolved QuickJS path"
    );
}

#[test]
fn fetch_info_passes_js_runtimes_when_qjs_resolved() {
    let qjs = "/opt/yt-dlp-clipper/qjs-sentinel";
    let mut tools = Tools::new();
    set_js_runtime(&mut tools, qjs.into());
    let args = fetch_info_args(&tools, "https://example.com/v", &None);
    let i = args
        .iter()
        .position(|a| *a == "--js-runtimes")
        .expect("fetch_info must pass --js-runtimes when a QuickJS binary was resolved");
    assert_eq!(
        args[i + 1],
        format!("quickjs:{}", qjs),
        "--js-runtimes must carry the resolved QuickJS path"
    );
}

#[test]
fn cookies_come_from_the_chosen_source() {
    let tools = Tools::new();
    let browser = Some(CookieSource::Browser(Browser::Firefox));
    assert_eq!(
        fetch_info_args(&tools, "u", &browser),
        ["-J", "--no-playlist", "--cookies-from-browser", "firefox", "--", "u"]
    );
    let file = Some(CookieSource::File("/home/me/cookies.txt".into()));
    let args = download_args(&tools, "u", &None, &file, OUTPUT_NAME);
    let i = args.iter().position(|a| a == "--cookies").expect("a cookies file is passed");
    assert_eq!(args[i + 1], "/home/me/cookies.txt");
    let o = args.iter().position(|a| a == "-o").expect("an output name is passed");
    assert_eq!(args[o + 1], "%(title)s [%(id)s].%(ext)s");
    assert!(!download_args(&tools, "u", &None, &None, "t").iter().any(|a| a.contains("cookies")));
    for browser in Browser::all() {
        assert_eq!(browser.label().to_lowercase(), browser.name());
    }
    assert_eq!(Browser::all().len(), 9);
}

#[test]
fn surrounding_text_hides_no_hint() {
    for hint in ["Please Update", "run yt-dlp -U", "an outdated version", "the LATEST version"] {
        assert!(suggests_update(hint));
        assert!(suggests_update(&format!("ERROR: x; {hint}!\nbye")));
        assert!(suggests_update(&hint.to_ascii_uppercase()));
    }
}

#[test]
fn bare_arguments_are_exact() {
    let tools = Tools::new();
    assert_eq!(tools.binary(), "yt-dlp");
    assert_eq!(fetch_info_args(&tools, "-x", &None), ["-J", "--no-playlist", "--", "-x"]);
    assert_eq!(
        download_args(&tools, "-x", &Some("best".into()), &None, "dir/t"),
        [
            "--no-playlist",
            "--newline",
            "--progress",
            "-f",
            "best",
            "-o",
            "dir/t",
            "--progress-template",
            "PROGRESS %(progress.downloaded_bytes)s %(progress.total_bytes)s \
             %(progress.total_bytes_estimate)s",
            "--print",
            "after_move:OUTPUT %(filepath)s",
            "--",
            "-x",
        ]
    );
}

#[test]
fn the_first_path_set_stays() {
    let mut tools = Tools::new();
    set_binary(&mut tools, "/a".into());
    set_binary(&mut tools, "/b".into());
    set_ffmpeg(&mut tools, "/f".into());
    set_ffmpeg(&mut tools, "/g".into());
    assert_eq!(tools.binary(), "/a");
    assert_eq!(tools.ffmpeg.as_deref(), Some("/f"));
    assert_eq!(tools.quickjs, None);
}

#[test]
fn selectors_follow_the_choices() {
    assert_eq!(
        resolution_selector(Some(720), true, true).as_deref(),
        Some("bestvideo[height<=720]+bestaudio/best[height<=720]")
    );
    assert_eq!(resolution_selector(None, true, true).as_deref(), Some("bestvideo+bestaudio/best"));
    assert_eq!(
        resolution_selector(Some(1080), true, false).as_deref(),
        Some("bestvideo[height<=1080]")
    );
    assert_eq!(resolution_selector(None, true, false).as_deref(), Some("bestvideo"));
    assert_eq!(resolution_selector(Some(720), false, true).as_deref(), Some("bestaudio"));
    assert_eq!(resolution_selector(Some(720), false, false), None);
}

#[test]
fn heights_are_distinct_and_fall() {
    let mut silent = video("x", 2160, 1);
    silent.vcodec = None;
    let listed = info(vec![
        video("a", 360, 1),
        video("b", 1080, 1),
        silent,
        video("c", 0, 1),
        video("d", 360, 1),
        video("e", 720, 1),
        sound("f", None, 1),
    ]);
    assert_eq!(available_heights(&listed), [1080, 720, 360]);
    assert!(available_heights(&info(vec![])).is_empty());
}

#[test]
fn the_last_of_equal_formats_is_best() {
    let formats = vec![
        video("a", 720, 1),
        video("b", 1080, 2),
        video("c", 1080, 3),
        sound("d", Some(96.0), 4),
        sound("e", Some(160.0), 5),
        sound("f", Some(160.0), 6),
        sound("g", None, 7),
    ];
    assert_eq!(best_video(&formats, None), Some(2));
    assert_eq!(best_video(&formats, Some(1079)), Some(0));
    assert_eq!(best_video(&formats, Some(100)), None);
    assert_eq!(best_audio(&formats), Some(5));
}

#[test]
fn bit_rates_are_ordered_totally() {
    let formats = vec![sound("a", Some(-0.0), 1), sound("b", None, 2), sound("c", Some(-5.0), 3)];
    assert_eq!(best_audio(&formats), Some(1));
    let formats = vec![sound("a", Some(f64::NAN), 1), sound("b", Some(320.0), 2)];
    assert_eq!(best_audio(&formats), Some(0));
}

#[test]
fn sizes_add_up() {
    let listed =
        info(vec![video("a", 720, 1000), video("b", 1080, 3000), sound("c", Some(128.0), 200)]);
    assert_eq!(estimated_size(&listed, None, true, true), Some(3200));
    assert_eq!(estimated_size(&listed, Some(720), true, true), Some(1200));
    assert_eq!(estimated_size(&listed, Some(720), true, false), Some(1000));
    assert_eq!(estimated_size(&listed, None, false, true), Some(200));
    assert_eq!(estimated_size(&listed, None, false, false), None);
    let mut unknown = video("a", 720, 0);
    unknown.filesize = None;
    assert_eq!(estimated_size(&info(vec![unknown]), None, true, true), None);
}

#[test]
fn a_format_reads_in_one_line() {
    let mut f = video("137", 1080, 123_456_789);
    f.resolution = Some("1920x1080".into());
    assert_eq!(f.label(), "   137  mp4   1920x1080  v:avc1 a:none 123.5MB");
    assert!(f.has_video() && !f.has_audio());
    assert_eq!(f.size(), Some(123_456_789));
    let mut g = format("long-format-id", None, Some("opus"));
    g.ext = "webm".into();
    assert_eq!(g.label(), "long-format-id  webm  —          v:none a:opus ?");
    assert!(!g.has_video() && g.has_audio());
}

#[test]
fn progress_lines_are_read() {
    assert!(matches!(read_line("PROGRESS 10 200 NA"), Line::Progress(10, 200)));
    assert!(matches!(read_line("PROGRESS 10 NA 300"), Line::Progress(10, 300)));
    assert!(matches!(read_line("PROGRESS  7\t9  NA "), Line::Progress(7, 9)));
    assert!(matches!(read_line("PROGRESS 10 0 300"), Line::Nothing));
    assert!(matches!(read_line("PROGRESS NA 200 300"), Line::Nothing));
    assert!(matches!(read_line("PROGRESS 1 2"), Line::Nothing));
    assert!(matches!(read_line("PROGRESS 1 2 3 4"), Line::Nothing));
    assert!(matches!(read_line("PROGRESS 1.5 2 3"), Line::Nothing));
    assert!(matches!(read_line("PROGRESS 1 18446744073709551615 NA"), Line::Progress(1, u64::MAX)));
    assert!(matches!(read_line("PROGRESS 1 18446744073709551616 NA"), Line::Nothing));
    assert!(matches!(read_line("[download] 10%"), Line::Nothing));
    match read_line("OUTPUT  /tmp/A file.mp4 ") {
        Line::Output(path) => assert_eq!(path, "/tmp/A file.mp4"),
        _ => unreachable!(),
    }
}

#[test]
fn a_download_ends_with_the_file_it_made() {
    let mut run = Download::new();
    assert_eq!(run.take("PROGRESS 1 2 NA", false).unwrap(), Some((1, 2)));
    assert_eq!(run.take("OUTPUT /tmp/a.mp4", false).unwrap(), None);
    assert_eq!(run.take("something else", false).unwrap(), None);
    assert_eq!(run.finish(true, String::new()).unwrap(), "/tmp/a.mp4");
}

#[test]
fn a_download_can_fail_in_three_ways() {
    let mut run = Download::new();
    let canceled = run.take("PROGRESS 1 2 NA", true).unwrap_err();
    assert_eq!(canceled.message(), "download canceled");
    let silent = Download::new().finish(true, String::new()).unwrap_err();
    assert_eq!(silent.message(), "yt-dlp did not report an output path");
    let failed = Download::new().finish(false, "no space".into()).unwrap_err();
    assert_eq!(failed.message(), "yt-dlp download failed: no space");
}

#[test]
fn outputs_are_trimmed_or_reported() {
    let output = |success: bool| Output {
        success,
        status: "exit status: 1".into(),
        stdout: " 2025.01.01\n".into(),
        stderr: "bad\n".into(),
    };
    assert_eq!(version(&output(true)).unwrap(), "2025.01.01");
    assert_eq!(version(&output(false)).unwrap_err().message(), "yt-dlp --version failed: bad\n");
    assert_eq!(update(&output(true)).unwrap(), "2025.01.01");
    assert_eq!(
        update(&output(false)).unwrap_err().message(),
        "yt-dlp -U failed: 2025.01.01bad\n"
    );
    assert!(check_fetched(&output(true)).is_ok());
    assert_eq!(
        check_fetched(&output(false)).unwrap_err().message(),
        "yt-dlp exited with exit status: 1: bad\n"
    );
    assert_eq!(
        YtdlpError::NotRunnable.message(),
        "failed to run yt-dlp — is it installed and on PATH?"
    );
    assert_eq!(YtdlpError::BadJson.message(), "could not parse yt-dlp JSON output");
    assert_eq!(YtdlpError::NotFinished.message(), "yt-dlp did not finish cleanly");
}
