use vstd::prelude::*;
use vstd::string::StringExecFns;
use crate::config::{Config, ImageConfig};
use crate::models::Repository;
use crate::text::{push_char, replace_char, replace_char_spec};

verus! {

/// The file name of a repository's card image: the date, the category and the
/// repository's name (with `/` turned into `_`), joined by `_`, as `.png`.
pub open spec fn card_image_file_name(date: Seq<char>, category: Seq<char>, repo_name: Seq<char>) -> Seq<char> {
    date.push('_') + category.push('_') + replace_char_spec(repo_name, '/', '_') + ".png"@
}

/// `format!("{}_{}_{}.png", date, category, repo_name.replace("/", "_"))`.
pub fn card_image_name(date: &str, category: &str, repo_name: &str) -> (r: String)
    ensures
        r@ == card_image_file_name(date@, category@, repo_name@),
{
    let mut r = date.to_owned();
    push_char(&mut r, '_');
    r.append(category);
    push_char(&mut r, '_');
    let n = replace_char(repo_name, '/', '_');
    r.append(n.as_str());
    r.append(".png");
    r
}

/// Renders repository cards to images.
pub struct ImageGenerator {
    config: ImageConfig,
}

impl ImageGenerator {
    /// Whether images are made at all.
    pub closed spec fn enabled(&self) -> bool {
        self.config.enabled
    }

    /// The width of the captured area, in pixels.
    pub closed spec fn width_view(&self) -> u32 {
        self.config.width
    }

    /// The height of the captured area, in pixels.
    pub closed spec fn height_view(&self) -> u32 {
        self.config.height
    }

    /// A generator with `config`'s image settings.
    pub fn new(config: &Config) -> (r: ImageGenerator)
        ensures
            r.enabled() == config.image.enabled,
            r.width_view() == config.image.width,
            r.height_view() == config.image.height,
    {
        ImageGenerator {
            config: ImageConfig {
                enabled: config.image.enabled,
                width: config.image.width,
                height: config.image.height,
                background_color: config.image.background_color.clone(),
                text_color: config.image.text_color.clone(),
                font_size: config.image.font_size,
            },
        }
    }

    /// The width of the captured area.
    pub fn width(&self) -> (r: u32)
        ensures
            r == self.width_view(),
    {
        self.config.width
    }

    /// The height of the captured area.
    pub fn height(&self) -> (r: u32)
        ensures
            r == self.height_view(),
    {
        self.config.height
    }

    /// The file a card image of `repo` is to be written to, relative to the
    /// output directory; `None` when images are disabled (then nothing is
    /// rendered and the card's image name is empty).
    pub fn card_image_target(&self, repo: &Repository, category: &str, date: &str) -> (r: Option<String>)
        ensures
            match r {
                Some(f) => self.enabled() && f@ == card_image_file_name(date@, category@, repo.name@),
                None => !self.enabled(),
            },
    {
        if !self.config.enabled {
            return None;
        }
        Some(card_image_name(date, category, repo.name.as_str()))
    }
}

} // verus!
