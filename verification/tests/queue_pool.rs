use spotidown::{
    DispatchAction, Download, DownloadJob, DownloadState, DownloaderConfig, DownloaderMessage,
    JobQueue, Message, Quality, QueueCoordinator, Response, WorkerPool,
};

fn item(track_id: &str, title: &str) -> Download {
    Download {
        id: 99,
        track_id: track_id.to_string(),
        title: title.to_string(),
        subtitle: String::new(),
        state: DownloadState::Post,
    }
}

fn config(limit: usize) -> DownloaderConfig {
    DownloaderConfig {
        concurrent_downloads: limit,
        quality: Quality::Q320,
        path: "/tmp/music".to_string(),
        filename_template: "%artist% - %title%".to_string(),
        id3v24: true,
        convert_to_mp3: false,
        separator: ", ".to_string(),
    }
}

#[test]
fn enqueue_assigns_fresh_ascending_ids() {
    let mut q = JobQueue::new();
    q.enqueue(vec![item("t0", "a"), item("t1", "b"), item("t2", "c")]);
    let snap = q.snapshot();
    assert_eq!(snap.len(), 3);
    assert_eq!(snap[0].id, 0);
    assert_eq!(snap[1].id, 1);
    assert_eq!(snap[2].id, 2);
    for d in &snap {
        assert!(matches!(d.state, DownloadState::Queued));
    }
    assert_eq!(snap[1].track_id, "t1");
    assert_eq!(snap[2].title, "c");
}

#[test]
fn ids_never_repeat_after_removals() {
    let mut q = JobQueue::new();
    q.enqueue(vec![item("t0", "a"), item("t1", "b")]);
    q.update_state(0, DownloadState::Done);
    q.update_state(1, DownloadState::Done);
    assert_eq!(q.snapshot().len(), 0);
    q.enqueue(vec![item("t2", "c")]);
    let snap = q.snapshot();
    assert_eq!(snap.len(), 1);
    assert_eq!(snap[0].id, 2);
}

#[test]
fn next_eligible_locks_first_queued_job() {
    let mut q = JobQueue::new();
    q.enqueue(vec![item("t0", "a"), item("t1", "b")]);
    let job = q.next_eligible().unwrap();
    assert_eq!(job.id, 0);
    assert_eq!(job.track_id, "t0");
    let snap = q.snapshot();
    assert!(matches!(snap[0].state, DownloadState::Lock));
    assert!(matches!(snap[1].state, DownloadState::Queued));
    let job2 = q.next_eligible().unwrap();
    assert_eq!(job2.id, 1);
    assert!(q.next_eligible().is_none());
    assert!(q.is_waiting());
}

#[test]
fn update_state_removes_done_and_ignores_absent() {
    let mut q = JobQueue::new();
    q.enqueue(vec![item("t0", "a"), item("t1", "b")]);
    q.update_state(7, DownloadState::Post);
    assert_eq!(q.snapshot().len(), 2);
    q.update_state(0, DownloadState::Downloading(10, 100));
    let snap = q.snapshot();
    assert!(matches!(snap[0].state, DownloadState::Downloading(10, 100)));
    q.update_state(0, DownloadState::Done);
    let snap = q.snapshot();
    assert_eq!(snap.len(), 1);
    assert_eq!(snap[0].id, 1);
}

#[test]
fn error_jobs_stay_visible() {
    let mut q = JobQueue::new();
    q.enqueue(vec![item("t0", "a")]);
    q.update_state(0, DownloadState::Error("stream failed".to_string()));
    let snap = q.snapshot();
    assert_eq!(snap.len(), 1);
    assert!(matches!(&snap[0].state, DownloadState::Error(m) if m == "stream failed"));
}

#[test]
fn coordinator_dispatches_on_enqueue_when_worker_waits() {
    let mut coord = QueueCoordinator::new(JobQueue::new(), config(2));
    let eff = coord.handle_message(Message::GetJob);
    assert!(eff.dispatch.is_none());
    let eff = coord.handle_message(Message::AddToQueue(vec![item("t0", "a")]));
    match eff.dispatch {
        Some(DownloaderMessage::Job(job, cfg)) => {
            assert_eq!(job.id, 0);
            assert_eq!(job.track_id, "t0");
            assert_eq!(cfg.concurrent_downloads, 2);
        }
        None => panic!("expected an immediate dispatch for the waiting worker"),
    }
}

#[test]
fn coordinator_snapshot_and_config_updates() {
    let mut coord = QueueCoordinator::new(JobQueue::new(), config(2));
    coord.handle_message(Message::AddToQueue(vec![item("t0", "a")]));
    let eff = coord.handle_message(Message::GetDownloads);
    match eff.reply {
        Some(Response::Downloads(ds)) => {
            assert_eq!(ds.len(), 1);
            assert_eq!(ds[0].track_id, "t0");
        }
        None => panic!("expected a snapshot reply"),
    }
    // A configuration change applies only to jobs dispatched afterwards.
    coord.handle_message(Message::SetConfig(config(7)));
    let eff = coord.handle_message(Message::GetJob);
    match eff.dispatch {
        Some(DownloaderMessage::Job(_, cfg)) => assert_eq!(cfg.concurrent_downloads, 7),
        None => panic!("expected a dispatch"),
    }
}

#[test]
fn pool_bounds_concurrency_and_buffers_overflow() {
    let mut pool = WorkerPool::new();
    let job = |id: i64| DownloadJob { id, track_id: format!("t{}", id) };
    assert!(matches!(
        pool.on_job_offered(job(0), config(2)),
        DispatchAction::Start(_, _)
    ));
    assert!(matches!(
        pool.on_job_offered(job(1), config(2)),
        DispatchAction::Start(_, _)
    ));
    assert!(matches!(pool.on_job_offered(job(2), config(2)), DispatchAction::Buffered));
    assert!(matches!(pool.on_job_offered(job(3), config(2)), DispatchAction::Buffered));
    assert_eq!(pool.in_flight_count(), 2);
    assert_eq!(pool.overflow_len(), 2);
    // Completion starts the oldest buffered job first: arrival order is kept.
    match pool.on_job_finished() {
        DispatchAction::Start(j, _) => assert_eq!(j.id, 2),
        _ => panic!("expected the oldest buffered job to start"),
    }
    assert_eq!(pool.in_flight_count(), 2);
    match pool.on_job_finished() {
        DispatchAction::Start(j, _) => assert_eq!(j.id, 3),
        _ => panic!("expected the second buffered job to start"),
    }
    assert!(matches!(pool.on_job_finished(), DispatchAction::Idle));
    assert!(matches!(pool.on_job_finished(), DispatchAction::Idle));
    assert_eq!(pool.in_flight_count(), 0);
}

#[test]
fn all_jobs_finish_under_concurrency_limit() {
    // Five jobs, a limit of two, deterministic successful collaborators: at
    // most two run at once and every job reaches Done (leaving the queue).
    let n_jobs = 5;
    let limit = 2;
    let mut coord = QueueCoordinator::new(JobQueue::new(), config(limit));
    let mut pool = WorkerPool::new();
    let items: Vec<Download> = (0..n_jobs).map(|i| item(&format!("t{}", i), "x")).collect();
    coord.handle_message(Message::AddToQueue(items));

    let mut running: Vec<DownloadJob> = Vec::new();
    let mut started = 0usize;
    let mut max_in_flight = 0usize;
    loop {
        let eff = coord.handle_message(Message::GetJob);
        match eff.dispatch {
            Some(DownloaderMessage::Job(job, cfg)) => {
                if let DispatchAction::Start(j, _) = pool.on_job_offered(job, cfg) {
                    running.push(j);
                    started += 1;
                }
                max_in_flight = max_in_flight.max(pool.in_flight_count());
            }
            None => break,
        }
    }
    while let Some(j) = running.pop() {
        coord.handle_message(Message::UpdateState(j.id, DownloadState::Done));
        if let DispatchAction::Start(j2, _) = pool.on_job_finished() {
            running.push(j2);
            started += 1;
        }
        max_in_flight = max_in_flight.max(pool.in_flight_count());
    }
    assert_eq!(started, n_jobs);
    assert!(max_in_flight <= limit);
    let eff = coord.handle_message(Message::GetDownloads);
    match eff.reply {
        Some(Response::Downloads(ds)) => assert_eq!(ds.len(), 0),
        None => panic!("expected a snapshot reply"),
    }
}
