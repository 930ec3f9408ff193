use breeze::pipeline_option::PipelineOption;
use breeze::presentation::Presentation;
use breeze::slides::change_slides;

#[test]
fn image_paths_in_slide_order() {
    let presentation = Presentation::load("@b.png\n\ntext\n\n@a.png\n\n\\\n\n@b.png\n").unwrap();
    assert_eq!(
        vec!["b.png".to_owned(), "a.png".to_owned(), "b.png".to_owned()],
        presentation.image_paths()
    );
    assert!(Presentation::default().image_paths().is_empty());
}

#[test]
fn change_slides_moves_within_the_presentation() {
    let presentation = Presentation::load("a\n\nb\n\nc\n").unwrap();
    let mut current = 0;
    assert!(!change_slides(&presentation, &mut current, false));
    assert_eq!(0, current);
    assert!(change_slides(&presentation, &mut current, true));
    assert_eq!(1, current);
    assert!(change_slides(&presentation, &mut current, true));
    assert_eq!(2, current);
    assert!(!change_slides(&presentation, &mut current, true));
    assert_eq!(2, current);
    assert!(change_slides(&presentation, &mut current, false));
    assert_eq!(1, current);
}

#[test]
fn change_slides_on_a_single_slide() {
    let presentation = Presentation::default();
    let mut current = 0;
    assert!(!change_slides(&presentation, &mut current, true));
    assert!(!change_slides(&presentation, &mut current, false));
    assert_eq!(0, current);
}

#[test]
fn pipeline_option_gives_its_value() {
    let mut option = PipelineOption(Some(5_u32));
    assert_eq!(5, *option.unwrap_as_ref());
    *option.unwrap_as_ref_mut() += 2;
    assert_eq!(7, *option.unwrap_as_ref());
    assert_eq!(PipelineOption(Some(7)), option);
}
