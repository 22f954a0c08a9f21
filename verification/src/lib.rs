//! Arcade-style terminal animations: a dot-matrix canvas packed into Unicode
//! Braille glyphs, frame-paced animation playback, and the bookkeeping for
//! running an external command while an animation is shown.

pub mod animation;
pub mod braille;
pub mod dmd_library;
pub mod executor;
pub mod player;
pub mod rendering;
pub mod text;
pub mod video;
pub mod wrapper;

pub use animation::Animation;
pub use animation::framebased::FrameBasedAnimation;
pub use animation::merge::MergeAnimation;
pub use animation::rabbit::RabbitAnimation;
pub use animation::trophy::TrophyAnimation;
pub use braille::BrailleGrid;
pub use braille::Color;
pub use executor::CommandExecutor;
pub use executor::CommandResult;
pub use player::PlayerStep;
pub use rendering::RenderMode;
pub use video::blit_luma_to_braille;
pub use video::converter::BrailleFrame;
pub use wrapper::CliWrapper;
pub use wrapper::git::GitWrapper;
