use sonorant::runtime::{frames_dropped, samples_to_push};

#[test]
fn only_whole_frames_go_in_and_what_does_not_fit_is_counted() {
    assert_eq!(samples_to_push(1921, 5000), 1920);
    assert_eq!(samples_to_push(1921, 1001), 1000);
    assert_eq!(samples_to_push(7, 3), 2);
    assert_eq!(samples_to_push(0, 10), 0);
    assert_eq!(samples_to_push(10, 1), 0);
    assert_eq!(frames_dropped(1921, 1000), 460);
    assert_eq!(frames_dropped(1920, 1920), 0);
    assert_eq!(frames_dropped(10, 0), 5);
}
