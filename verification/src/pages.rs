pub mod score_editing_page;
