use engine::image::{
    capture_buffer_size, layer_view_layers, main_view_is_array, LayeredViews, CAPTURE_HEIGHT, CAPTURE_WIDTH,
};

#[test]
fn array_images_get_layer_views() {
    assert!(!main_view_is_array(1));
    assert!(main_view_is_array(2));
    assert_eq!(layer_view_layers(0), Vec::<u32>::new());
    assert_eq!(layer_view_layers(1), Vec::<u32>::new());
    assert_eq!(layer_view_layers(4), vec![0, 1, 2, 3]);
}

#[test]
fn layer_view_of_array_and_single_images() {
    let array = LayeredViews::new(100u64, vec![10, 11, 12], 3);
    assert_eq!(array.view(), 100);
    assert_eq!(array.layer_view(0), 10);
    assert_eq!(array.layer_view(2), 12);
    let single = LayeredViews::new(7u64, vec![], 1);
    assert_eq!(single.layer_view(0), 7);
    assert_eq!(single.layer_view(5), 7);
}

#[test]
fn capture_size() {
    assert_eq!(capture_buffer_size(CAPTURE_WIDTH, CAPTURE_HEIGHT), 2_073_600);
    assert_eq!(capture_buffer_size(0, 540), 0);
    assert_eq!(capture_buffer_size(1, 1), 4);
}
