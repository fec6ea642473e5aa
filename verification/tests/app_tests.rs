use komorebi::app::App;

#[test]
fn it_works() {}

#[test]
fn app_it_works() {}

#[test]
fn app_new_has_empty_world() {
    let app = App::new();
    let _ = app.window;
}
