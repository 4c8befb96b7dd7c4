use rufium::input::KeyInput;
use rufium::input::NavigationMode;
use rufium::ui::RenderResult;
use rufium::ui::ViewerApp;
use rufium::ui::ViewerConfig;

fn result(page_index: usize, width: u32, height: u32) -> RenderResult {
    RenderResult { page_index, pixels: vec![0u8; (width * height * 4) as usize], width, height }
}

fn jump_to(app: &mut ViewerApp, number: &str) -> rufium::ui::NavEffects {
    for c in number.chars() {
        app.handle_key_press(&KeyInput::Character(c));
    }
    app.handle_key_press(&KeyInput::Enter)
}

#[test]
fn new_viewer_requests_first_page() {
    let (app, requests) = ViewerApp::new(10);
    assert_eq!(app.current_page_index(), 0);
    assert_eq!(app.total_pages(), 10);
    assert!(app.displayed_page().is_none());
    assert_eq!(requests.len(), 1);
    assert_eq!(requests[0].page_index, 0);
    assert_eq!((requests[0].width, requests[0].height), (800, 600));
}

#[test]
fn empty_document_requests_nothing_and_ignores_navigation() {
    let (mut app, requests) = ViewerApp::new(0);
    assert!(requests.is_empty());
    for key in [
        KeyInput::Character('j'),
        KeyInput::Character('k'),
        KeyInput::Character('G'),
        KeyInput::Character('d'),
        KeyInput::Character('u'),
    ] {
        let fx = app.handle_key_press(&key);
        assert!(!fx.quit);
        assert_eq!(app.current_page_index(), 0);
    }
    let fx = jump_to(&mut app, "1");
    assert!(fx.requests.is_empty());
    assert_eq!(app.current_page_index(), 0);
}

#[test]
fn next_and_prev_move_and_request_neighbors() {
    let (mut app, _) = ViewerApp::new(10);
    let fx = app.handle_key_press(&KeyInput::Character('j'));
    assert_eq!(app.current_page_index(), 1);
    let mut pages: Vec<usize> = fx.requests.iter().map(|r| r.page_index).collect();
    pages.sort();
    assert_eq!(pages, vec![0, 1, 2]);
    let fx = app.handle_key_press(&KeyInput::Character('k'));
    assert_eq!(app.current_page_index(), 0);
    let mut pages: Vec<usize> = fx.requests.iter().map(|r| r.page_index).collect();
    pages.sort();
    assert_eq!(pages, vec![0, 1]);
}

#[test]
fn navigation_does_not_wrap_at_edges() {
    let (mut app, _) = ViewerApp::new(3);
    app.handle_key_press(&KeyInput::Character('k'));
    assert_eq!(app.current_page_index(), 0);
    app.handle_key_press(&KeyInput::Character('G'));
    assert_eq!(app.current_page_index(), 2);
    app.handle_key_press(&KeyInput::Character('j'));
    assert_eq!(app.current_page_index(), 2);
}

#[test]
fn boundary_navigation_still_runs_a_scheduler_pass() {
    // moving past the first page: a no-op move, but the pass still requests
    // the missing prefetch pages
    let (mut app, _) = ViewerApp::new(10);
    let fx = app.handle_key_press(&KeyInput::Character('k'));
    assert_eq!(app.current_page_index(), 0);
    let mut pages: Vec<usize> = fx.requests.iter().map(|r| r.page_index).collect();
    pages.sort();
    assert_eq!(pages, vec![0, 1]);

    // moving past the last page likewise
    app.handle_key_press(&KeyInput::Character('G'));
    let fx = app.handle_key_press(&KeyInput::Character('j'));
    assert_eq!(app.current_page_index(), 9);
    let mut pages: Vec<usize> = fx.requests.iter().map(|r| r.page_index).collect();
    pages.sort();
    assert_eq!(pages, vec![8, 9]);
}

#[test]
fn boundary_pass_adopts_a_cached_current_page() {
    let (mut app, _) = ViewerApp::new(10);
    // cache pages 0 and 1 while page 3 is displayed
    app.handle_render_result(result(0, 10, 10));
    app.handle_render_result(result(1, 10, 10));
    jump_to(&mut app, "4");
    app.handle_render_result(result(3, 10, 10));
    assert_eq!(app.displayed_page(), Some(3));
    jump_to(&mut app, "1");
    assert_eq!(app.displayed_page(), Some(0));
    // the no-op move past the first page still adopts the cached page
    jump_to(&mut app, "4");
    app.handle_key_press(&KeyInput::Character('g'));
    app.handle_key_press(&KeyInput::Character('g'));
    let fx = app.handle_key_press(&KeyInput::Character('k'));
    assert_eq!(app.current_page_index(), 0);
    assert_eq!(app.displayed_page(), Some(0));
    assert!(fx.requests.iter().all(|r| r.page_index != 0 && r.page_index != 1));
}

#[test]
fn half_page_moves_clamp() {
    let config = ViewerConfig {
        initial_window_width: 800,
        initial_window_height: 600,
        cache_size: 5,
        half_page_scroll_amount: 5,
        target_render_height: 800,
    };
    let (mut app, _) = ViewerApp::with_config(8, config);
    app.handle_key_press(&KeyInput::Character('d'));
    assert_eq!(app.current_page_index(), 5);
    app.handle_key_press(&KeyInput::Character('d'));
    assert_eq!(app.current_page_index(), 7);
    app.handle_key_press(&KeyInput::Character('u'));
    assert_eq!(app.current_page_index(), 2);
    app.handle_key_press(&KeyInput::Character('u'));
    assert_eq!(app.current_page_index(), 0);
}

#[test]
fn gg_returns_to_first_page() {
    let (mut app, _) = ViewerApp::new(10);
    jump_to(&mut app, "7");
    assert_eq!(app.current_page_index(), 6);
    app.handle_key_press(&KeyInput::Character('g'));
    assert_eq!(app.current_page_index(), 6);
    app.handle_key_press(&KeyInput::Character('g'));
    assert_eq!(app.current_page_index(), 0);
}

#[test]
fn jump_to_page_is_one_based() {
    let (mut app, _) = ViewerApp::new(10);
    jump_to(&mut app, "3");
    assert_eq!(app.current_page_index(), 2);
}

#[test]
fn out_of_range_jump_is_a_no_op() {
    let (mut app, _) = ViewerApp::new(10);
    jump_to(&mut app, "4");
    assert_eq!(app.current_page_index(), 3);
    let fx = jump_to(&mut app, "11");
    assert_eq!(app.current_page_index(), 3);
    assert!(fx.requests.is_empty());
}

#[test]
fn jump_to_page_zero_lands_on_first_page() {
    let (mut app, _) = ViewerApp::new(10);
    jump_to(&mut app, "4");
    assert_eq!(app.current_page_index(), 3);
    jump_to(&mut app, "0");
    assert_eq!(app.current_page_index(), 0);
}

#[test]
fn quit_key_raises_quit_flag() {
    let (mut app, _) = ViewerApp::new(10);
    let fx = app.handle_key_press(&KeyInput::Character('q'));
    assert!(fx.quit);
    let fx = app.handle_key_press(&KeyInput::Character('j'));
    assert!(!fx.quit);
}

#[test]
fn command_mode_quit_through_viewer() {
    let (mut app, _) = ViewerApp::new(10);
    app.handle_key_press(&KeyInput::Character(':'));
    assert_eq!(app.key_handler().mode(), NavigationMode::Command);
    app.handle_key_press(&KeyInput::Character('q'));
    let fx = app.handle_key_press(&KeyInput::Enter);
    assert!(fx.quit);
    assert_eq!(app.key_handler().mode(), NavigationMode::Normal);
}

#[test]
fn current_result_displays_and_resizes() {
    let (mut app, _) = ViewerApp::new(10);
    let resize = app.handle_render_result(result(0, 1000, 500));
    assert_eq!(app.displayed_page(), Some(0));
    let resize = resize.expect("a result for the current page must resize");
    // width = target_height * aspect ratio = 800 * (1000 / 500)
    assert_eq!((resize.width, resize.height), (1600, 800));
    assert!(app.cached_page(0).is_some());
}

#[test]
fn stale_result_is_cached_but_not_displayed() {
    let (mut app, _) = ViewerApp::new(10);
    let resize = app.handle_render_result(result(0, 100, 100));
    assert!(resize.is_some());
    assert_eq!(app.displayed_page(), Some(0));
    // page 5 is not current: cached, no display change, no resize
    let resize = app.handle_render_result(result(5, 100, 100));
    assert!(resize.is_none());
    assert_eq!(app.displayed_page(), Some(0));
    assert!(app.cached_page(5).is_some());
}

#[test]
fn duplicate_in_flight_results_do_not_corrupt_state() {
    let (mut app, _) = ViewerApp::new(10);
    // two rapid jumps to the same uncached target issue their requests
    let fx1 = jump_to(&mut app, "5");
    let fx2 = jump_to(&mut app, "5");
    assert!(fx1.requests.iter().any(|r| r.page_index == 4));
    assert!(fx2.requests.iter().any(|r| r.page_index == 4));
    // both renders complete; the last write wins, nothing breaks
    app.handle_render_result(result(4, 100, 100));
    app.handle_render_result(result(4, 120, 60));
    assert_eq!(app.current_page_index(), 4);
    assert_eq!(app.displayed_page(), Some(4));
    let entry = app.cached_page(4).expect("page 4 must be cached");
    assert_eq!((entry.width, entry.height), (120, 60));
}

#[test]
fn cached_current_page_is_adopted_without_a_request() {
    let (mut app, _) = ViewerApp::new(10);
    app.handle_render_result(result(0, 10, 10));
    app.handle_render_result(result(1, 10, 10));
    app.handle_render_result(result(2, 10, 10));
    // moving to page 1 finds everything cached: no requests, image adopted
    let fx = app.handle_key_press(&KeyInput::Character('j'));
    assert_eq!(app.current_page_index(), 1);
    assert!(fx.requests.is_empty());
    assert_eq!(app.displayed_page(), Some(1));
}

#[test]
fn window_size_feeds_request_dimensions() {
    let (mut app, _) = ViewerApp::new(10);
    app.set_window_size(1024, 768);
    let fx = app.handle_key_press(&KeyInput::Character('j'));
    assert!(!fx.requests.is_empty());
    for r in &fx.requests {
        assert_eq!((r.width, r.height), (1024, 768));
    }
}

#[test]
fn oversized_window_dimensions_saturate() {
    let (mut app, _) = ViewerApp::new(10);
    app.set_window_size(100_000, 50);
    let fx = app.handle_key_press(&KeyInput::Character('j'));
    for r in &fx.requests {
        assert_eq!((r.width, r.height), (65535, 50));
    }
}

#[test]
fn zero_height_result_displays_without_resize() {
    let (mut app, _) = ViewerApp::new(10);
    let resize = app.handle_render_result(result(0, 10, 0));
    assert!(resize.is_none());
    assert_eq!(app.displayed_page(), Some(0));
}

#[test]
fn default_config_values() {
    let config = ViewerConfig::default();
    assert_eq!(config.initial_window_width, 800);
    assert_eq!(config.initial_window_height, 600);
    assert_eq!(config.cache_size, 5);
    assert_eq!(config.half_page_scroll_amount, 5);
    assert_eq!(config.target_render_height, 800);
}
