use smugdancer::cache_service::{cached_filename, CacheAction, CacheEvent, CacheState, GifService};
use smugdancer::common::Error;
use smugdancer::config::ServerConfig;
use smugdancer::garbage::{plan_purge, rows_to_forget, select_victims, Candidate, Deletion, PurgePlan};
use smugdancer::gate::ClientAddr;
use smugdancer::render_service::{
    QueueAction, QueueEvent, RenderOutcome, RenderService, RenderServiceConfig,
};
use smugdancer::server::{tempo_query, Reply, Server};

const FPS: f64 = 50.0;
const WAVE_COUNT: f64 = 12.0;
const FRAME_COUNT: usize = 720;

fn minimum_bpm() -> f64 {
    WAVE_COUNT * FPS * 60.0 / FRAME_COUNT as f64
}

fn quantize(bpm: f64) -> f64 {
    WAVE_COUNT * FPS * 60.0 / (WAVE_COUNT * FPS * 60.0 / bpm).floor()
}

fn speed_of(query: &str) -> f64 {
    let bpm: f64 = tempo_query(query).parse().unwrap();
    quantize(bpm) / minimum_bpm()
}

fn output_frames(speed: f64) -> usize {
    (FRAME_COUNT as f64 / speed).floor() as usize
}

fn frame_indices(speed: f64) -> Vec<usize> {
    let mut accumulator: f64 = 0.0;
    (0..output_frames(speed))
        .map(|_| {
            let frame = accumulator.floor() as usize + 1;
            accumulator += speed;
            frame
        })
        .collect()
}

fn render_service() -> RenderService {
    RenderService::new(
        RenderServiceConfig {
            encoder: "giffel".to_string(),
            encoder_flags: vec![
                "stitch".to_string(),
                "--fps".to_string(),
                "{fps}".to_string(),
                "{frame_indices}".to_string(),
            ],
            max_jobs: 4,
        },
        FRAME_COUNT,
    )
}

fn server(rate_limiting: bool) -> Server {
    Server::new(&ServerConfig {
        port: 8080,
        root: "http://localhost:8080".to_string(),
        rate_limiting,
        reverse_proxy: false,
    })
}

/// Runs the cache service for one request whose file is not on disk yet, with the outcome
/// that the render service told; gives the reply and whether the file was written.
fn serve_miss(speed_bits: u64, outcome: RenderOutcome) -> (Result<Vec<u8>, Error>, bool) {
    let (state, action) = GifService::handle_request(CacheState::Idle, CacheEvent::Requested { speed_bits });
    assert_eq!(action, CacheAction::Probe { speed_bits });
    let (state, action) = GifService::handle_request(state, CacheEvent::Probed { exists: false });
    assert_eq!(action, CacheAction::CollectGarbage);
    let (state, action) = GifService::handle_request(state, CacheEvent::Collected);
    assert_eq!(action, CacheAction::Render { speed_bits });
    let (mut state, mut action) = GifService::handle_request(state, CacheEvent::Rendered { outcome });
    let mut wrote = false;
    if action == CacheAction::WriteFile {
        wrote = true;
        (state, action) = GifService::handle_request(state, CacheEvent::Written { result: Ok(()) });
    }
    if action == CacheAction::Stamp {
        (state, action) = GifService::handle_request(
            state,
            CacheEvent::Stamped { path: Some(cached_filename(speed_bits)), now: Some(1_700_000_000) },
        );
    }
    assert_eq!(state, CacheState::Done);
    match action {
        CacheAction::Finish { reply, touch } => {
            assert_eq!(reply.is_ok(), touch.is_some());
            (reply, wrote)
        }
        other => panic!("{:?}", other),
    }
}

#[test]
fn tempo_50_plays_at_speed_one_with_all_frames() {
    assert_eq!(minimum_bpm(), 50.0);
    let speed = speed_of("50.gif");
    assert_eq!(speed, 1.0);
    assert_eq!(output_frames(speed), 720);
    let mut service = render_service();
    assert_eq!(service.check_speed(720), Ok(()));
    let indices = frame_indices(speed);
    assert_eq!(indices, (1..=720).collect::<Vec<usize>>());
    let args = service.render_args("50", &indices);
    assert_eq!(args.len(), 3 + 720);
    assert_eq!(&args[..5], &["stitch", "--fps", "50", "1", "2"]);
    assert_eq!(args[722], "720");

    assert!(service.handle_request(speed.to_bits(), 1));
    let gif = vec![7u8; 720];
    let deliveries = service.handle_complete_render(speed.to_bits(), Ok(gif.clone()));
    assert_eq!(deliveries.len(), 1);
    let (reply, wrote) = serve_miss(speed.to_bits(), deliveries.into_iter().next().unwrap().outcome);
    assert_eq!(reply, Ok(gif.clone()));
    assert!(wrote);

    let (state, _) =
        GifService::handle_request(CacheState::Idle, CacheEvent::Requested { speed_bits: speed.to_bits() });
    let (state, action) = GifService::handle_request(state, CacheEvent::Probed { exists: true });
    assert_eq!(action, CacheAction::ReadFile);
    let (state, action) = GifService::handle_request(state, CacheEvent::Read { contents: Ok(gif.clone()) });
    assert_eq!(action, CacheAction::Stamp);
    let (_, action) = GifService::handle_request(
        state,
        CacheEvent::Stamped { path: Some("cache/3ff0000000000000.gif".to_string()), now: Some(1) },
    );
    match action {
        CacheAction::Finish { reply, .. } => assert_eq!(reply, Ok(gif)),
        other => panic!("{:?}", other),
    }
}

#[test]
fn tempo_100_plays_at_speed_two_with_every_other_frame() {
    let speed = speed_of("100.gif");
    assert_eq!(speed, 2.0);
    assert_eq!(output_frames(speed), 360);
    assert_eq!(render_service().check_speed(360), Ok(()));
    let indices = frame_indices(speed);
    assert_eq!(indices, (0..360).map(|i| 2 * i + 1).collect::<Vec<usize>>());
    assert_eq!(cached_filename(speed.to_bits()), "4000000000000000.gif");
    assert_eq!(cached_filename(speed_of("100").to_bits()), cached_filename(speed.to_bits()));
}

#[test]
fn tempo_36001_is_too_fast() {
    let speed = speed_of("36001.gif");
    let frames = output_frames(speed);
    assert!(frames <= 1);
    let error = render_service().check_speed(frames).unwrap_err();
    assert_eq!(error, Error::SpeedTooFast);
    let mut service = render_service();
    service.handle_request(speed.to_bits(), 1);
    let deliveries = service.handle_complete_render(speed.to_bits(), Err(error));
    let (reply, wrote) = serve_miss(speed.to_bits(), deliveries.into_iter().next().unwrap().outcome);
    assert!(!wrote);
    let mut front = server(true);
    let token = front.begin(None, None, ClientAddr::V4(1)).unwrap();
    match front.finish(token, reply) {
        Reply::Failure(response) => {
            assert_eq!(response.status, 400);
            assert_eq!(response.body.error, "Hat Kid got incarcerated for speeding on a highway.");
        }
        Reply::Gif(_) => panic!("a GIF"),
    }
}

#[test]
fn tempo_one_half_is_too_slow() {
    let speed = speed_of("0.5");
    let frames = output_frames(speed);
    assert!(frames > FRAME_COUNT);
    let error = render_service().check_speed(frames).unwrap_err();
    assert_eq!(error, Error::SpeedTooSlow);
    assert_eq!(error.status_code(), 400);
    let response = Error::RenderFailed(std::sync::Arc::new(error)).to_response();
    assert_eq!(response.status, 400);
    assert_eq!(response.body.error, "yawn\u{2026}");
}

#[test]
fn ten_requests_for_one_tempo_share_one_render() {
    let speed = speed_of("75.gif");
    let bits = speed.to_bits();
    let mut front = server(true);
    let mut service = render_service();
    let mut tokens = Vec::new();
    let mut renders = 0;
    for client in 0..10u32 {
        tokens.push(front.begin(None, None, ClientAddr::V4(client)).unwrap());
        match service.handle_event(QueueEvent::Requested { speed_bits: bits, waiter: client as u64 }) {
            QueueAction::Render { speed_bits } => {
                assert_eq!(speed_bits, bits);
                renders += 1;
            }
            QueueAction::Join => {}
            other => panic!("{:?}", other),
        }
    }
    assert_eq!(renders, 1);
    let gif = vec![1u8, 2, 3, 4];
    let deliveries = match service.handle_event(QueueEvent::Completed { speed_bits: bits, result: Ok(gif.clone()) }) {
        QueueAction::Deliver { deliveries } => deliveries,
        other => panic!("{:?}", other),
    };
    assert_eq!(deliveries.len(), 10);
    let mut writes = 0;
    let mut places = Vec::new();
    for (delivery, token) in deliveries.into_iter().zip(tokens) {
        if let RenderOutcome::Ready { queue_position, .. } = &delivery.outcome {
            places.push(*queue_position);
        }
        let (reply, wrote) = serve_miss(bits, delivery.outcome);
        if wrote {
            writes += 1;
        }
        assert_eq!(front.finish(token, reply), Reply::Gif(gif.clone()));
    }
    assert_eq!(places, (0..10).collect::<Vec<usize>>());
    assert_eq!(writes, 1);
}

#[test]
fn two_requests_of_one_client_give_one_gif_and_one_429() {
    let mut front = server(true);
    let client = ClientAddr::V6(0x2001_0db8_0000_0000_0000_0000_0000_0001);
    let first = front.begin(None, None, client);
    let second = front.begin(None, None, client);
    let token = first.unwrap();
    assert_eq!(second.unwrap_err().status, 429);
    assert_eq!(front.finish(token, Ok(vec![1])), Reply::Gif(vec![1]));
}

#[test]
fn full_cache_is_purged_oldest_first_down_to_the_purge_limit() {
    let limit = 1000;
    let purge_limit = 600;
    let sizes = vec![300u64, 300, 300, 300];
    let plan = plan_purge(&sizes, limit, 8);
    assert_eq!(plan, PurgePlan::Purge { fetch: 8, total: 1200 });
    let index = vec![
        ("cache/a.gif", 100u64, Some(300u64)),
        ("cache/b.gif", 200, Some(300)),
        ("cache/c.gif", 300, Some(300)),
        ("cache/d.gif", 400, Some(300)),
    ];
    let oldest: Vec<Candidate> = index
        .iter()
        .map(|(file, _, size)| Candidate { file: file.to_string(), size: *size })
        .collect();
    let victims = select_victims(&oldest, 1200, purge_limit);
    assert_eq!(victims, vec!["cache/a.gif", "cache/b.gif"]);
    let deletions: Vec<Deletion> =
        victims.iter().map(|file| Deletion { file: file.clone(), removed: true }).collect();
    let forgotten = rows_to_forget(&deletions);
    assert_eq!(forgotten, victims);
    let survivors: Vec<(&str, u64)> = index
        .iter()
        .filter(|(file, _, _)| !forgotten.iter().any(|gone| gone == file))
        .map(|(file, time, _)| (*file, *time))
        .collect();
    assert_eq!(survivors, vec![("cache/c.gif", 300), ("cache/d.gif", 400)]);
    assert!(1200 - 600 <= purge_limit);
}
