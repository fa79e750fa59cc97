use smugdancer::common::Error;
use smugdancer::render_service::{
    check_output_frames, encoder_args, render_result, Delivery, EncoderRun, QueueAction,
    QueueEvent, RenderOutcome, RenderService, RenderServiceConfig,
};
use std::sync::Arc;

fn service(flags: &[&str], frame_count: usize) -> RenderService {
    RenderService::new(
        RenderServiceConfig {
            encoder: "giffel".to_string(),
            encoder_flags: flags.iter().map(|flag| flag.to_string()).collect(),
            max_jobs: 2,
        },
        frame_count,
    )
}

#[test]
fn first_request_for_a_speed_starts_a_render() {
    let mut service = service(&[], 720);
    assert!(service.handle_request(7, 100));
    assert!(!service.handle_request(7, 101));
    assert!(!service.handle_request(7, 102));
    assert!(service.handle_request(8, 103));
}

#[test]
fn completion_delivers_in_order_with_places() {
    let mut service = service(&[], 720);
    service.handle_request(7, 100);
    service.handle_request(7, 101);
    service.handle_request(7, 102);
    let deliveries = service.handle_complete_render(7, Ok(vec![1, 2, 3]));
    assert_eq!(
        deliveries,
        vec![
            Delivery { waiter: 100, outcome: RenderOutcome::Ready { gif: vec![1, 2, 3], queue_position: 0 } },
            Delivery { waiter: 101, outcome: RenderOutcome::Ready { gif: vec![1, 2, 3], queue_position: 1 } },
            Delivery { waiter: 102, outcome: RenderOutcome::Ready { gif: vec![1, 2, 3], queue_position: 2 } },
        ]
    );
}

#[test]
fn completion_removes_the_queue() {
    let mut service = service(&[], 720);
    service.handle_request(7, 100);
    let _ = service.handle_complete_render(7, Ok(vec![1]));
    assert!(service.handle_request(7, 101));
    let deliveries = service.handle_complete_render(7, Ok(vec![2]));
    assert_eq!(
        deliveries,
        vec![Delivery { waiter: 101, outcome: RenderOutcome::Ready { gif: vec![2], queue_position: 0 } }]
    );
}

#[test]
fn completion_leaves_other_speeds_alone() {
    let mut service = service(&[], 720);
    service.handle_request(7, 100);
    service.handle_request(8, 200);
    let _ = service.handle_complete_render(7, Ok(vec![1]));
    assert!(!service.handle_request(8, 201));
    let deliveries = service.handle_complete_render(8, Ok(vec![9]));
    assert_eq!(deliveries.len(), 2);
    assert_eq!(deliveries[0].waiter, 200);
    assert_eq!(deliveries[1].waiter, 201);
}

#[test]
fn completion_without_waiters_delivers_nothing() {
    let mut service = service(&[], 720);
    assert_eq!(service.handle_complete_render(7, Ok(vec![1])), Vec::<Delivery>::new());
}

#[test]
fn failure_is_shared_by_all_waiters() {
    let mut service = service(&[], 720);
    service.handle_request(7, 100);
    service.handle_request(7, 101);
    let deliveries = service.handle_complete_render(7, Err(Error::EncoderExitCode));
    assert_eq!(deliveries.len(), 2);
    let mut pointers = Vec::new();
    for (delivery, waiter) in deliveries.iter().zip([100u64, 101]) {
        assert_eq!(delivery.waiter, waiter);
        match &delivery.outcome {
            RenderOutcome::Failed(error) => {
                assert_eq!(**error, Error::EncoderExitCode);
                pointers.push(Arc::as_ptr(error));
            }
            RenderOutcome::Ready { .. } => panic!("a GIF"),
        }
    }
    assert_eq!(pointers[0], pointers[1]);
}

#[test]
fn events_give_the_fitting_actions() {
    let mut service = service(&[], 720);
    assert_eq!(
        service.handle_event(QueueEvent::Requested { speed_bits: 5, waiter: 1 }),
        QueueAction::Render { speed_bits: 5 }
    );
    assert_eq!(
        service.handle_event(QueueEvent::Requested { speed_bits: 5, waiter: 2 }),
        QueueAction::Join
    );
    assert_eq!(
        service.handle_event(QueueEvent::Completed { speed_bits: 5, result: Ok(vec![0]) }),
        QueueAction::Deliver {
            deliveries: vec![
                Delivery { waiter: 1, outcome: RenderOutcome::Ready { gif: vec![0], queue_position: 0 } },
                Delivery { waiter: 2, outcome: RenderOutcome::Ready { gif: vec![0], queue_position: 1 } },
            ]
        }
    );
}

#[test]
fn output_frames_are_checked_against_the_animation() {
    assert_eq!(check_output_frames(0, 720), Err(Error::SpeedTooFast));
    assert_eq!(check_output_frames(1, 720), Err(Error::SpeedTooFast));
    assert_eq!(check_output_frames(2, 720), Ok(()));
    assert_eq!(check_output_frames(720, 720), Ok(()));
    assert_eq!(check_output_frames(721, 720), Err(Error::SpeedTooSlow));
    assert_eq!(check_output_frames(2, 1), Err(Error::SpeedTooSlow));
    assert_eq!(check_output_frames(1, 0), Err(Error::SpeedTooFast));
}

#[test]
fn service_checks_speed_against_its_frame_count() {
    let service = service(&[], 900);
    assert_eq!(service.check_speed(900), Ok(()));
    assert_eq!(service.check_speed(901), Err(Error::SpeedTooSlow));
    assert_eq!(service.check_speed(1), Err(Error::SpeedTooFast));
    assert_eq!(service.max_jobs(), 2);
    assert_eq!(service.encoder(), "giffel");
}

#[test]
fn flags_are_expanded() {
    let flags: Vec<String> = ["stitch", "--fps", "{fps}", "-o", "-", "{frame_indices}"]
        .iter()
        .map(|flag| flag.to_string())
        .collect();
    let args = encoder_args(&flags, "50", &vec![1, 3, 5]);
    assert_eq!(args, vec!["stitch", "--fps", "50", "-o", "-", "1", "3", "5"]);
}

#[test]
fn frame_indices_keep_the_text_around_them() {
    let flags = vec!["frames/{frame_indices}.png".to_string()];
    let args = encoder_args(&flags, "50", &vec![1, 12, 720]);
    assert_eq!(args, vec!["frames/1.png", "frames/12.png", "frames/720.png"]);
}

#[test]
fn fps_flag_is_replaced_as_a_whole() {
    let flags = vec!["--fps={fps}".to_string()];
    assert_eq!(encoder_args(&flags, "50", &vec![1]), vec!["50"]);
}

#[test]
fn frame_indices_win_over_fps() {
    let flags = vec!["{fps}-{frame_indices}".to_string()];
    assert_eq!(encoder_args(&flags, "50", &vec![4, 5]), vec!["{fps}-4", "{fps}-5"]);
}

#[test]
fn frame_indices_flag_vanishes_without_frames() {
    let flags = vec!["a".to_string(), "{frame_indices}".to_string(), "b".to_string()];
    assert_eq!(encoder_args(&flags, "50", &vec![]), vec!["a", "b"]);
    assert_eq!(encoder_args(&vec![], "50", &vec![1]), Vec::<String>::new());
}

#[test]
fn service_builds_the_command_line_from_its_flags() {
    let service = service(&["--fps", "{fps}", "{frame_indices}"], 720);
    assert_eq!(service.render_args("25", &vec![2, 4]), vec!["--fps", "25", "2", "4"]);
}

#[test]
fn encoder_run_becomes_a_result() {
    assert_eq!(
        render_result(EncoderRun::Exited { success: true, stdout: vec![71, 73, 70] }),
        Ok(vec![71, 73, 70])
    );
    assert_eq!(
        render_result(EncoderRun::Exited { success: false, stdout: vec![71, 73, 70] }),
        Err(Error::EncoderExitCode)
    );
    assert_eq!(
        render_result(EncoderRun::Broken("No such file or directory".to_string())),
        Err(Error::Encoder("No such file or directory".to_string()))
    );
}
