//! The texts of the site in its three languages.

use vstd::prelude::*;
use crate::anchor::{decimal, decimal_string};
use crate::lang::Lang;
use crate::text::push_char;

verus! {

/// The texts of the pages, in one language.
#[derive(Clone, Debug)]
pub struct Translations {
    // The navigation bar.
    pub nav_posts: &'static str,
    pub nav_blog: &'static str,
    pub nav_review: &'static str,
    pub nav_diary: &'static str,
    pub nav_series: &'static str,
    pub nav_guestbook: &'static str,
    pub nav_about_me: &'static str,
    pub nav_light_mode: &'static str,
    pub nav_dark_mode: &'static str,
    // The front page.
    pub index_recent_posts: &'static str,
    pub index_no_recent_posts: &'static str,
    pub index_check_back: &'static str,
    // The listings.
    pub blog_title: &'static str,
    pub review_title: &'static str,
    pub diary_title: &'static str,
    pub filter_by_category: &'static str,
    pub filter_all: &'static str,
    pub no_posts_available: &'static str,
    // The card of a post in a listing.
    pub card_read_more: &'static str,
    // The page of a post.
    pub post_back: &'static str,
    pub post_min_read: &'static str,
    pub post_share_article: &'static str,
    pub post_back_to_top: &'static str,
    pub post_toc_title: &'static str,
    pub post_not_found_title: &'static str,
    pub post_not_found_subtitle: &'static str,
    pub post_not_found_message: &'static str,
    pub post_return_home: &'static str,
    // The comments of a post.
    pub comments_title: &'static str,
    pub comments_name: &'static str,
    pub comments_password: &'static str,
    pub comments_password_hint: &'static str,
    pub comments_password_placeholder: &'static str,
    pub comments_comment: &'static str,
    pub comments_placeholder: &'static str,
    pub comments_submit: &'static str,
    pub comments_be_first: &'static str,
    pub comments_enter_both: &'static str,
    pub comments_failed_create: &'static str,
    pub comments_error: &'static str,
    pub comments_enter_password_edit: &'static str,
    pub comments_edit_prompt: &'static str,
    pub comments_wrong_password: &'static str,
    pub comments_failed_edit: &'static str,
    pub comments_enter_password_delete: &'static str,
    pub comments_confirm_delete: &'static str,
    // The series pages.
    pub series_title: &'static str,
    pub series_subtitle: &'static str,
    pub series_completed: &'static str,
    pub series_ongoing: &'static str,
    pub series_posts_count: &'static str,
    pub series_updated: &'static str,
    pub series_view: &'static str,
    pub series_no_series: &'static str,
    pub series_no_series_message: &'static str,
    pub series_last_updated: &'static str,
    pub series_part: &'static str,
    pub series_no_posts: &'static str,
    pub series_no_posts_message: &'static str,
    pub series_view_all: &'static str,
    pub series_previous: &'static str,
    pub series_next: &'static str,
    // The guestbook.
    pub guestbook_title: &'static str,
    pub guestbook_subtitle: &'static str,
    pub guestbook_write_new: &'static str,
    pub guestbook_name: &'static str,
    pub guestbook_name_placeholder: &'static str,
    pub guestbook_password: &'static str,
    pub guestbook_password_hint: &'static str,
    pub guestbook_password_placeholder: &'static str,
    pub guestbook_message: &'static str,
    pub guestbook_message_placeholder: &'static str,
    pub guestbook_submit: &'static str,
    pub guestbook_recent: &'static str,
    pub guestbook_no_entries: &'static str,
    pub guestbook_no_entries_message: &'static str,
    pub guestbook_enter_both: &'static str,
    pub guestbook_failed: &'static str,
    // The error page.
    pub error_title: &'static str,
    pub error_subtitle: &'static str,
    pub error_message: &'static str,
    pub error_return_home: &'static str,
    // The footer.
    pub footer_copyright: String,
    // The search box.
    pub search_placeholder: &'static str,
    pub search_no_results: &'static str,
    pub search_results_for: &'static str,
    // The language switcher.
    pub lang_switch_label: &'static str,
    // Code blocks.
    pub code_copy: &'static str,
    pub code_copied: &'static str,
    // The dates of a post.
    pub post_created: &'static str,
    pub post_updated: &'static str,
    // Figures.
    pub graph_before: &'static str,
    pub graph_after: &'static str,
    // The order of a listing.
    pub sort_newest_first: &'static str,
    pub sort_oldest_first: &'static str,
    pub sort_recently_updated: &'static str,
    pub sort_least_updated: &'static str,
    // The counters of a post.
    pub post_views: &'static str,
    pub post_likes: &'static str,
    // The visitor counters.
    pub visitor_today: &'static str,
    pub visitor_total: &'static str,
    pub visitor_visitors: &'static str,
    // Requests turned away.
    pub rate_limit: &'static str,
}

/// The numeral of a year, with a `-` before it if the year is negative.
pub open spec fn year_numeral(year: int) -> Seq<char> {
    if year < 0 {
        seq!['-'] + decimal((-year) as nat)
    } else {
        decimal(year as nat)
    }
}

/// The copyright line of the footer in the year `year`.
pub open spec fn copyright_line(year: int) -> Seq<char> {
    "Copyright \u{00a9} 2024 - "@ + year_numeral(year) + " All rights reserved by Han Damin"@
}

/// Calls `chrono::Utc::now` and `Datelike::year`: the current year, of which nothing is known.
#[verifier::external_body]
pub(crate) fn current_year() -> i32 {
    chrono::Datelike::year(&chrono::Utc::now())
}

/// The copyright line of the footer in the year `year`.
pub fn copyright(year: i32) -> (r: String)
    ensures
        r@ == copyright_line(year as int),
{
    let mut r = "Copyright \u{00a9} 2024 - ".to_owned();
    if year < 0 {
        let mut number = String::new();
        push_char(&mut number, '-');
        let size: i64 = -(year as i64);
        number.append(decimal_string(size as u64).as_str());
        assert(number@ =~= year_numeral(year as int));
        r.append(number.as_str());
    } else {
        r.append(decimal_string(year as u64).as_str());
    }
    r.append(" All rights reserved by Han Damin");
    r
}

/// Whether `t` holds the English texts, with the copyright line of the year `year`.
pub open spec fn is_en(t: Translations, year: int) -> bool {
    &&& t.nav_posts@ == "Posts"@
    &&& t.nav_blog@ == "Blog"@
    &&& t.nav_review@ == "Review"@
    &&& t.nav_diary@ == "Diary"@
    &&& t.nav_series@ == "Series"@
    &&& t.nav_guestbook@ == "Guestbook"@
    &&& t.nav_about_me@ == "About"@
    &&& t.nav_light_mode@ == "Light Mode"@
    &&& t.nav_dark_mode@ == "Dark Mode"@
    &&& t.index_recent_posts@ == "Recent Posts"@
    &&& t.index_no_recent_posts@ == "No posts yet."@
    &&& t.index_check_back@ == "New content is on the way!"@
    &&& t.blog_title@ == "Blog"@
    &&& t.review_title@ == "Reviews"@
    &&& t.diary_title@ == "Diary"@
    &&& t.filter_by_category@ == "Category"@
    &&& t.filter_all@ == "All"@
    &&& t.no_posts_available@ == "No posts yet"@
    &&& t.card_read_more@ == "Read more"@
    &&& t.post_back@ == "Back"@
    &&& t.post_min_read@ == "min read"@
    &&& t.post_share_article@ == "Share this article"@
    &&& t.post_back_to_top@ == "Back to top"@
    &&& t.post_toc_title@ == "Table of Contents"@
    &&& t.post_not_found_title@ == "404"@
    &&& t.post_not_found_subtitle@ == "Page Not Found"@
    &&& t.post_not_found_message@ == "The page you're looking for doesn't exist. Check the URL or head back to the homepage."@
    &&& t.post_return_home@ == "Go Home"@
    &&& t.comments_title@ == "Comments"@
    &&& t.comments_name@ == "Name"@
    &&& t.comments_password@ == "Password"@
    &&& t.comments_password_hint@ == "(optional, for editing)"@
    &&& t.comments_password_placeholder@ == "Password for editing later"@
    &&& t.comments_comment@ == "Comment"@
    &&& t.comments_placeholder@ == "Leave a comment..."@
    &&& t.comments_submit@ == "Post Comment"@
    &&& t.comments_be_first@ == "Be the first to comment!"@
    &&& t.comments_enter_both@ == "Please enter both name and comment."@
    &&& t.comments_failed_create@ == "Failed to post comment."@
    &&& t.comments_error@ == "Something went wrong."@
    &&& t.comments_enter_password_edit@ == "Enter your password to edit:"@
    &&& t.comments_edit_prompt@ == "Edit your comment:"@
    &&& t.comments_wrong_password@ == "Wrong password or comment not found."@
    &&& t.comments_failed_edit@ == "Failed to edit comment."@
    &&& t.comments_enter_password_delete@ == "Enter your password to delete:"@
    &&& t.comments_confirm_delete@ == "Are you sure you want to delete this comment?"@
    &&& t.series_title@ == "Series"@
    &&& t.series_subtitle@ == "Related posts organized into series for in-depth reading."@
    &&& t.series_completed@ == "Completed"@
    &&& t.series_ongoing@ == "Ongoing"@
    &&& t.series_posts_count@ == "posts"@
    &&& t.series_updated@ == "Updated:"@
    &&& t.series_view@ == "View Series"@
    &&& t.series_no_series@ == "No series yet"@
    &&& t.series_no_series_message@ == "Series will appear here once created. Stay tuned!"@
    &&& t.series_last_updated@ == "Last updated:"@
    &&& t.series_part@ == "Part"@
    &&& t.series_no_posts@ == "No posts in this series yet"@
    &&& t.series_no_posts_message@ == "Posts for this series are coming soon!"@
    &&& t.series_view_all@ == "All Series"@
    &&& t.series_previous@ == "Previous"@
    &&& t.series_next@ == "Next"@
    &&& t.guestbook_title@ == "Guestbook"@
    &&& t.guestbook_subtitle@ == "Say hello, share a thought, or leave a note. All messages are welcome!"@
    &&& t.guestbook_write_new@ == "Write a Message"@
    &&& t.guestbook_name@ == "Name"@
    &&& t.guestbook_name_placeholder@ == "Your name"@
    &&& t.guestbook_password@ == "Password"@
    &&& t.guestbook_password_hint@ == "(optional, for editing later)"@
    &&& t.guestbook_password_placeholder@ == "Password for editing later"@
    &&& t.guestbook_message@ == "Message"@
    &&& t.guestbook_message_placeholder@ == "Write your message..."@
    &&& t.guestbook_submit@ == "Post"@
    &&& t.guestbook_recent@ == "Recent Messages"@
    &&& t.guestbook_no_entries@ == "No messages yet"@
    &&& t.guestbook_no_entries_message@ == "Be the first to leave a message!"@
    &&& t.guestbook_enter_both@ == "Please enter both name and message."@
    &&& t.guestbook_failed@ == "Failed to post. Please try again."@
    &&& t.error_title@ == "404"@
    &&& t.error_subtitle@ == "Page Not Found"@
    &&& t.error_message@ == "The page you're looking for doesn't exist. Check the URL or head back to the homepage."@
    &&& t.error_return_home@ == "Go Home"@
    &&& t.search_placeholder@ == "Search..."@
    &&& t.search_no_results@ == "No results found."@
    &&& t.search_results_for@ == "Results for"@
    &&& t.lang_switch_label@ == "Language"@
    &&& t.code_copy@ == "Copy"@
    &&& t.code_copied@ == "Copied!"@
    &&& t.post_created@ == "Created"@
    &&& t.post_updated@ == "Updated"@
    &&& t.graph_before@ == "Before"@
    &&& t.graph_after@ == "After"@
    &&& t.sort_newest_first@ == "Newest first"@
    &&& t.sort_oldest_first@ == "Oldest first"@
    &&& t.sort_recently_updated@ == "Recently updated"@
    &&& t.sort_least_updated@ == "Least recently updated"@
    &&& t.post_views@ == "views"@
    &&& t.post_likes@ == "likes"@
    &&& t.visitor_today@ == "Today"@
    &&& t.visitor_total@ == "Total"@
    &&& t.visitor_visitors@ == "visitors"@
    &&& t.rate_limit@ == "Too many requests. Please wait a moment."@
    &&& t.footer_copyright@ == copyright_line(year)
}

/// Whether `t` holds the Korean texts, with the copyright line of the year `year`.
pub open spec fn is_ko(t: Translations, year: int) -> bool {
    &&& t.nav_posts@ == "글"@
    &&& t.nav_blog@ == "블로그"@
    &&& t.nav_review@ == "리뷰"@
    &&& t.nav_diary@ == "일기"@
    &&& t.nav_series@ == "시리즈"@
    &&& t.nav_guestbook@ == "방명록"@
    &&& t.nav_about_me@ == "소개"@
    &&& t.nav_light_mode@ == "라이트 모드"@
    &&& t.nav_dark_mode@ == "다크 모드"@
    &&& t.index_recent_posts@ == "최근 글"@
    &&& t.index_no_recent_posts@ == "아직 작성된 글이 없습니다."@
    &&& t.index_check_back@ == "곧 새로운 글이 올라올 예정입니다!"@
    &&& t.blog_title@ == "블로그"@
    &&& t.review_title@ == "리뷰"@
    &&& t.diary_title@ == "일기"@
    &&& t.filter_by_category@ == "카테고리별 보기"@
    &&& t.filter_all@ == "전체"@
    &&& t.no_posts_available@ == "아직 작성된 글이 없습니다"@
    &&& t.card_read_more@ == "자세히 보기"@
    &&& t.post_back@ == "뒤로"@
    &&& t.post_min_read@ == "분 소요"@
    &&& t.post_share_article@ == "이 글 공유하기"@
    &&& t.post_back_to_top@ == "맨 위로"@
    &&& t.post_toc_title@ == "목차"@
    &&& t.post_not_found_title@ == "404"@
    &&& t.post_not_found_subtitle@ == "페이지를 찾을 수 없습니다"@
    &&& t.post_not_found_message@ == "요청하신 페이지를 찾을 수 없습니다. 주소를 확인하시거나 홈으로 돌아가 주세요."@
    &&& t.post_return_home@ == "홈으로 돌아가기"@
    &&& t.comments_title@ == "댓글"@
    &&& t.comments_name@ == "이름"@
    &&& t.comments_password@ == "비밀번호"@
    &&& t.comments_password_hint@ == "(선택, 수정 시 필요)"@
    &&& t.comments_password_placeholder@ == "수정 시 사용할 비밀번호"@
    &&& t.comments_comment@ == "댓글"@
    &&& t.comments_placeholder@ == "댓글을 남겨 주세요..."@
    &&& t.comments_submit@ == "댓글 달기"@
    &&& t.comments_be_first@ == "첫 댓글을 남겨 보세요!"@
    &&& t.comments_enter_both@ == "이름과 댓글을 모두 입력해 주세요."@
    &&& t.comments_failed_create@ == "댓글 작성에 실패했습니다."@
    &&& t.comments_error@ == "오류가 발생했습니다."@
    &&& t.comments_enter_password_edit@ == "댓글을 수정하려면 비밀번호를 입력하세요:"@
    &&& t.comments_edit_prompt@ == "댓글을 수정하세요:"@
    &&& t.comments_wrong_password@ == "비밀번호가 틀렸거나 댓글을 찾을 수 없습니다."@
    &&& t.comments_failed_edit@ == "댓글 수정에 실패했습니다."@
    &&& t.comments_enter_password_delete@ == "댓글을 삭제하려면 비밀번호를 입력하세요:"@
    &&& t.comments_confirm_delete@ == "정말 이 댓글을 삭제하시겠습니까?"@
    &&& t.series_title@ == "시리즈"@
    &&& t.series_subtitle@ == "관련 글을 주제별로 묶어 시리즈로 정리했습니다."@
    &&& t.series_completed@ == "완결"@
    &&& t.series_ongoing@ == "연재중"@
    &&& t.series_posts_count@ == "편"@
    &&& t.series_updated@ == "수정일:"@
    &&& t.series_view@ == "시리즈 보기"@
    &&& t.series_no_series@ == "아직 시리즈가 없습니다"@
    &&& t.series_no_series_message@ == "시리즈가 만들어지면 여기에 나타납니다. 조금만 기다려 주세요!"@
    &&& t.series_last_updated@ == "마지막 수정:"@
    &&& t.series_part@ == "파트"@
    &&& t.series_no_posts@ == "이 시리즈에는 아직 글이 없습니다"@
    &&& t.series_no_posts_message@ == "이 시리즈의 글이 곧 올라올 예정입니다!"@
    &&& t.series_view_all@ == "전체 시리즈 보기"@
    &&& t.series_previous@ == "이전"@
    &&& t.series_next@ == "다음"@
    &&& t.guestbook_title@ == "방명록"@
    &&& t.guestbook_subtitle@ == "자유롭게 인사하거나 하고 싶은 말을 남겨 주세요!"@
    &&& t.guestbook_write_new@ == "새 글 작성"@
    &&& t.guestbook_name@ == "이름"@
    &&& t.guestbook_name_placeholder@ == "이름을 입력하세요"@
    &&& t.guestbook_password@ == "비밀번호"@
    &&& t.guestbook_password_hint@ == "(선택, 나중에 수정 시 필요)"@
    &&& t.guestbook_password_placeholder@ == "수정 시 사용할 비밀번호"@
    &&& t.guestbook_message@ == "메시지"@
    &&& t.guestbook_message_placeholder@ == "하고 싶은 말을 적어 주세요..."@
    &&& t.guestbook_submit@ == "글 남기기"@
    &&& t.guestbook_recent@ == "최근 방명록"@
    &&& t.guestbook_no_entries@ == "아직 방명록이 없습니다"@
    &&& t.guestbook_no_entries_message@ == "첫 번째 메시지를 남겨 보세요!"@
    &&& t.guestbook_enter_both@ == "이름과 메시지를 모두 입력해 주세요."@
    &&& t.guestbook_failed@ == "작성에 실패했습니다. 다시 시도해 주세요."@
    &&& t.error_title@ == "404"@
    &&& t.error_subtitle@ == "페이지를 찾을 수 없습니다"@
    &&& t.error_message@ == "요청하신 페이지를 찾을 수 없습니다. 주소를 확인하시거나 홈으로 돌아가 주세요."@
    &&& t.error_return_home@ == "홈으로 돌아가기"@
    &&& t.search_placeholder@ == "글 검색..."@
    &&& t.search_no_results@ == "검색 결과가 없습니다."@
    &&& t.search_results_for@ == "검색 결과:"@
    &&& t.lang_switch_label@ == "언어"@
    &&& t.code_copy@ == "복사"@
    &&& t.code_copied@ == "복사 완료!"@
    &&& t.post_created@ == "작성"@
    &&& t.post_updated@ == "수정"@
    &&& t.graph_before@ == "변환 전"@
    &&& t.graph_after@ == "변환 후"@
    &&& t.sort_newest_first@ == "최신순"@
    &&& t.sort_oldest_first@ == "오래된순"@
    &&& t.sort_recently_updated@ == "최근 수정순"@
    &&& t.sort_least_updated@ == "오래된 수정순"@
    &&& t.post_views@ == "조회"@
    &&& t.post_likes@ == "좋아요"@
    &&& t.visitor_today@ == "오늘"@
    &&& t.visitor_total@ == "전체"@
    &&& t.visitor_visitors@ == "방문자"@
    &&& t.rate_limit@ == "요청이 너무 많습니다. 잠시 후 다시 시도해 주세요."@
    &&& t.footer_copyright@ == copyright_line(year)
}

/// Whether `t` holds the Japanese texts, with the copyright line of the year `year`.
pub open spec fn is_ja(t: Translations, year: int) -> bool {
    &&& t.nav_posts@ == "記事"@
    &&& t.nav_blog@ == "ブログ"@
    &&& t.nav_review@ == "レビュー"@
    &&& t.nav_diary@ == "日記"@
    &&& t.nav_series@ == "シリーズ"@
    &&& t.nav_guestbook@ == "ゲストブック"@
    &&& t.nav_about_me@ == "プロフィール"@
    &&& t.nav_light_mode@ == "ライトモード"@
    &&& t.nav_dark_mode@ == "ダークモード"@
    &&& t.index_recent_posts@ == "最近の記事"@
    &&& t.index_no_recent_posts@ == "まだ記事がありません。"@
    &&& t.index_check_back@ == "新しい記事をお楽しみに！"@
    &&& t.blog_title@ == "ブログ"@
    &&& t.review_title@ == "レビュー"@
    &&& t.diary_title@ == "日記"@
    &&& t.filter_by_category@ == "カテゴリで絞り込み"@
    &&& t.filter_all@ == "すべて"@
    &&& t.no_posts_available@ == "まだ記事がありません"@
    &&& t.card_read_more@ == "続きを読む"@
    &&& t.post_back@ == "戻る"@
    &&& t.post_min_read@ == "分で読めます"@
    &&& t.post_share_article@ == "この記事をシェアする"@
    &&& t.post_back_to_top@ == "トップへ戻る"@
    &&& t.post_toc_title@ == "目次"@
    &&& t.post_not_found_title@ == "404"@
    &&& t.post_not_found_subtitle@ == "ページが見つかりません"@
    &&& t.post_not_found_message@ == "お探しのページは見つかりませんでした。URLをご確認いただくか、ホームへお戻りください。"@
    &&& t.post_return_home@ == "ホームへ戻る"@
    &&& t.comments_title@ == "コメント"@
    &&& t.comments_name@ == "名前"@
    &&& t.comments_password@ == "パスワード"@
    &&& t.comments_password_hint@ == "(任意、編集用)"@
    &&& t.comments_password_placeholder@ == "編集用パスワード"@
    &&& t.comments_comment@ == "コメント"@
    &&& t.comments_placeholder@ == "コメントを入力..."@
    &&& t.comments_submit@ == "コメントする"@
    &&& t.comments_be_first@ == "最初のコメントを書いてみましょう！"@
    &&& t.comments_enter_both@ == "名前とコメントを入力してください。"@
    &&& t.comments_failed_create@ == "コメントの投稿に失敗しました。"@
    &&& t.comments_error@ == "エラーが発生しました。"@
    &&& t.comments_enter_password_edit@ == "コメントを編集するにはパスワードを入力してください："@
    &&& t.comments_edit_prompt@ == "コメントを編集："@
    &&& t.comments_wrong_password@ == "パスワードが正しくないか、コメントが見つかりません。"@
    &&& t.comments_failed_edit@ == "コメントの編集に失敗しました。"@
    &&& t.comments_enter_password_delete@ == "コメントを削除するにはパスワードを入力してください："@
    &&& t.comments_confirm_delete@ == "このコメントを削除してもよろしいですか？"@
    &&& t.series_title@ == "シリーズ"@
    &&& t.series_subtitle@ == "関連する記事をシリーズにまとめました。じっくり読んでみてください。"@
    &&& t.series_completed@ == "完結"@
    &&& t.series_ongoing@ == "連載中"@
    &&& t.series_posts_count@ == "記事"@
    &&& t.series_updated@ == "更新日:"@
    &&& t.series_view@ == "シリーズを見る"@
    &&& t.series_no_series@ == "まだシリーズがありません"@
    &&& t.series_no_series_message@ == "シリーズが作成されるとここに表示されます。お楽しみに！"@
    &&& t.series_last_updated@ == "最終更新:"@
    &&& t.series_part@ == "パート"@
    &&& t.series_no_posts@ == "このシリーズにはまだ記事がありません"@
    &&& t.series_no_posts_message@ == "このシリーズの記事は近日公開予定です！"@
    &&& t.series_view_all@ == "すべてのシリーズを見る"@
    &&& t.series_previous@ == "前へ"@
    &&& t.series_next@ == "次へ"@
    &&& t.guestbook_title@ == "ゲストブック"@
    &&& t.guestbook_subtitle@ == "お気軽にメッセージを残してください！ひとことでも大歓迎です。"@
    &&& t.guestbook_write_new@ == "メッセージを書く"@
    &&& t.guestbook_name@ == "名前"@
    &&& t.guestbook_name_placeholder@ == "お名前を入力"@
    &&& t.guestbook_password@ == "パスワード"@
    &&& t.guestbook_password_hint@ == "(任意、編集用)"@
    &&& t.guestbook_password_placeholder@ == "編集用パスワード"@
    &&& t.guestbook_message@ == "メッセージ"@
    &&& t.guestbook_message_placeholder@ == "メッセージを入力..."@
    &&& t.guestbook_submit@ == "投稿する"@
    &&& t.guestbook_recent@ == "最近の書き込み"@
    &&& t.guestbook_no_entries@ == "まだ書き込みがありません"@
    &&& t.guestbook_no_entries_message@ == "最初のメッセージを残してみましょう！"@
    &&& t.guestbook_enter_both@ == "名前とメッセージを入力してください。"@
    &&& t.guestbook_failed@ == "投稿に失敗しました。もう一度お試しください。"@
    &&& t.error_title@ == "404"@
    &&& t.error_subtitle@ == "ページが見つかりません"@
    &&& t.error_message@ == "お探しのページは見つかりませんでした。URLをご確認いただくか、ホームへお戻りください。"@
    &&& t.error_return_home@ == "ホームへ戻る"@
    &&& t.search_placeholder@ == "記事を検索..."@
    &&& t.search_no_results@ == "検索結果が見つかりませんでした。"@
    &&& t.search_results_for@ == "検索結果:"@
    &&& t.lang_switch_label@ == "言語"@
    &&& t.code_copy@ == "コピー"@
    &&& t.code_copied@ == "コピーしました！"@
    &&& t.post_created@ == "作成"@
    &&& t.post_updated@ == "更新"@
    &&& t.graph_before@ == "変換前"@
    &&& t.graph_after@ == "変換後"@
    &&& t.sort_newest_first@ == "新しい順"@
    &&& t.sort_oldest_first@ == "古い順"@
    &&& t.sort_recently_updated@ == "最近更新順"@
    &&& t.sort_least_updated@ == "更新が古い順"@
    &&& t.post_views@ == "閲覧"@
    &&& t.post_likes@ == "いいね"@
    &&& t.visitor_today@ == "今日"@
    &&& t.visitor_total@ == "合計"@
    &&& t.visitor_visitors@ == "訪問者"@
    &&& t.rate_limit@ == "リクエストが多すぎます。しばらくしてからもう一度お試しください。"@
    &&& t.footer_copyright@ == copyright_line(year)
}

/// Whether `t` holds the texts of the language `lang`, with the copyright line of the year `year`.
pub open spec fn is_table(t: Translations, lang: Lang, year: int) -> bool {
    match lang {
        Lang::Ko => is_ko(t, year),
        Lang::Ja => is_ja(t, year),
        Lang::En => is_en(t, year),
    }
}

impl Translations {
    /// The texts of the language `lang`, with the copyright line of the current year.
    pub fn for_lang(lang: Lang) -> (r: Translations)
        ensures
            exists|year: int| is_table(r, lang, year),
    {
        let year = current_year();
        let r = Translations::in_year(lang, year);
        assert(is_table(r, lang, year as int));
        r
    }

    /// The texts of the language `lang`, with the copyright line of the year `year`.
    pub fn in_year(lang: Lang, year: i32) -> (r: Translations)
        ensures
            is_table(r, lang, year as int),
    {
        match lang {
            Lang::Ko => Translations::ko(year),
            Lang::Ja => Translations::ja(year),
            Lang::En => Translations::en(year),
        }
    }

    /// The English texts.
    pub fn en(year: i32) -> (r: Translations)
        ensures
            is_en(r, year as int),
    {
        Translations {
            nav_posts: "Posts",
            nav_blog: "Blog",
            nav_review: "Review",
            nav_diary: "Diary",
            nav_series: "Series",
            nav_guestbook: "Guestbook",
            nav_about_me: "About",
            nav_light_mode: "Light Mode",
            nav_dark_mode: "Dark Mode",
            index_recent_posts: "Recent Posts",
            index_no_recent_posts: "No posts yet.",
            index_check_back: "New content is on the way!",
            blog_title: "Blog",
            review_title: "Reviews",
            diary_title: "Diary",
            filter_by_category: "Category",
            filter_all: "All",
            no_posts_available: "No posts yet",
            card_read_more: "Read more",
            post_back: "Back",
            post_min_read: "min read",
            post_share_article: "Share this article",
            post_back_to_top: "Back to top",
            post_toc_title: "Table of Contents",
            post_not_found_title: "404",
            post_not_found_subtitle: "Page Not Found",
            post_not_found_message: "The page you're looking for doesn't exist. Check the URL or head back to the homepage.",
            post_return_home: "Go Home",
            comments_title: "Comments",
            comments_name: "Name",
            comments_password: "Password",
            comments_password_hint: "(optional, for editing)",
            comments_password_placeholder: "Password for editing later",
            comments_comment: "Comment",
            comments_placeholder: "Leave a comment...",
            comments_submit: "Post Comment",
            comments_be_first: "Be the first to comment!",
            comments_enter_both: "Please enter both name and comment.",
            comments_failed_create: "Failed to post comment.",
            comments_error: "Something went wrong.",
            comments_enter_password_edit: "Enter your password to edit:",
            comments_edit_prompt: "Edit your comment:",
            comments_wrong_password: "Wrong password or comment not found.",
            comments_failed_edit: "Failed to edit comment.",
            comments_enter_password_delete: "Enter your password to delete:",
            comments_confirm_delete: "Are you sure you want to delete this comment?",
            series_title: "Series",
            series_subtitle: "Related posts organized into series for in-depth reading.",
            series_completed: "Completed",
            series_ongoing: "Ongoing",
            series_posts_count: "posts",
            series_updated: "Updated:",
            series_view: "View Series",
            series_no_series: "No series yet",
            series_no_series_message: "Series will appear here once created. Stay tuned!",
            series_last_updated: "Last updated:",
            series_part: "Part",
            series_no_posts: "No posts in this series yet",
            series_no_posts_message: "Posts for this series are coming soon!",
            series_view_all: "All Series",
            series_previous: "Previous",
            series_next: "Next",
            guestbook_title: "Guestbook",
            guestbook_subtitle: "Say hello, share a thought, or leave a note. All messages are welcome!",
            guestbook_write_new: "Write a Message",
            guestbook_name: "Name",
            guestbook_name_placeholder: "Your name",
            guestbook_password: "Password",
            guestbook_password_hint: "(optional, for editing later)",
            guestbook_password_placeholder: "Password for editing later",
            guestbook_message: "Message",
            guestbook_message_placeholder: "Write your message...",
            guestbook_submit: "Post",
            guestbook_recent: "Recent Messages",
            guestbook_no_entries: "No messages yet",
            guestbook_no_entries_message: "Be the first to leave a message!",
            guestbook_enter_both: "Please enter both name and message.",
            guestbook_failed: "Failed to post. Please try again.",
            error_title: "404",
            error_subtitle: "Page Not Found",
            error_message: "The page you're looking for doesn't exist. Check the URL or head back to the homepage.",
            error_return_home: "Go Home",
            footer_copyright: copyright(year),
            search_placeholder: "Search...",
            search_no_results: "No results found.",
            search_results_for: "Results for",
            lang_switch_label: "Language",
            code_copy: "Copy",
            code_copied: "Copied!",
            post_created: "Created",
            post_updated: "Updated",
            graph_before: "Before",
            graph_after: "After",
            sort_newest_first: "Newest first",
            sort_oldest_first: "Oldest first",
            sort_recently_updated: "Recently updated",
            sort_least_updated: "Least recently updated",
            post_views: "views",
            post_likes: "likes",
            visitor_today: "Today",
            visitor_total: "Total",
            visitor_visitors: "visitors",
            rate_limit: "Too many requests. Please wait a moment.",
        }
    }

    /// The Korean texts.
    pub fn ko(year: i32) -> (r: Translations)
        ensures
            is_ko(r, year as int),
    {
        Translations {
            nav_posts: "글",
            nav_blog: "블로그",
            nav_review: "리뷰",
            nav_diary: "일기",
            nav_series: "시리즈",
            nav_guestbook: "방명록",
            nav_about_me: "소개",
            nav_light_mode: "라이트 모드",
            nav_dark_mode: "다크 모드",
            index_recent_posts: "최근 글",
            index_no_recent_posts: "아직 작성된 글이 없습니다.",
            index_check_back: "곧 새로운 글이 올라올 예정입니다!",
            blog_title: "블로그",
            review_title: "리뷰",
            diary_title: "일기",
            filter_by_category: "카테고리별 보기",
            filter_all: "전체",
            no_posts_available: "아직 작성된 글이 없습니다",
            card_read_more: "자세히 보기",
            post_back: "뒤로",
            post_min_read: "분 소요",
            post_share_article: "이 글 공유하기",
            post_back_to_top: "맨 위로",
            post_toc_title: "목차",
            post_not_found_title: "404",
            post_not_found_subtitle: "페이지를 찾을 수 없습니다",
            post_not_found_message: "요청하신 페이지를 찾을 수 없습니다. 주소를 확인하시거나 홈으로 돌아가 주세요.",
            post_return_home: "홈으로 돌아가기",
            comments_title: "댓글",
            comments_name: "이름",
            comments_password: "비밀번호",
            comments_password_hint: "(선택, 수정 시 필요)",
            comments_password_placeholder: "수정 시 사용할 비밀번호",
            comments_comment: "댓글",
            comments_placeholder: "댓글을 남겨 주세요...",
            comments_submit: "댓글 달기",
            comments_be_first: "첫 댓글을 남겨 보세요!",
            comments_enter_both: "이름과 댓글을 모두 입력해 주세요.",
            comments_failed_create: "댓글 작성에 실패했습니다.",
            comments_error: "오류가 발생했습니다.",
            comments_enter_password_edit: "댓글을 수정하려면 비밀번호를 입력하세요:",
            comments_edit_prompt: "댓글을 수정하세요:",
            comments_wrong_password: "비밀번호가 틀렸거나 댓글을 찾을 수 없습니다.",
            comments_failed_edit: "댓글 수정에 실패했습니다.",
            comments_enter_password_delete: "댓글을 삭제하려면 비밀번호를 입력하세요:",
            comments_confirm_delete: "정말 이 댓글을 삭제하시겠습니까?",
            series_title: "시리즈",
            series_subtitle: "관련 글을 주제별로 묶어 시리즈로 정리했습니다.",
            series_completed: "완결",
            series_ongoing: "연재중",
            series_posts_count: "편",
            series_updated: "수정일:",
            series_view: "시리즈 보기",
            series_no_series: "아직 시리즈가 없습니다",
            series_no_series_message: "시리즈가 만들어지면 여기에 나타납니다. 조금만 기다려 주세요!",
            series_last_updated: "마지막 수정:",
            series_part: "파트",
            series_no_posts: "이 시리즈에는 아직 글이 없습니다",
            series_no_posts_message: "이 시리즈의 글이 곧 올라올 예정입니다!",
            series_view_all: "전체 시리즈 보기",
            series_previous: "이전",
            series_next: "다음",
            guestbook_title: "방명록",
            guestbook_subtitle: "자유롭게 인사하거나 하고 싶은 말을 남겨 주세요!",
            guestbook_write_new: "새 글 작성",
            guestbook_name: "이름",
            guestbook_name_placeholder: "이름을 입력하세요",
            guestbook_password: "비밀번호",
            guestbook_password_hint: "(선택, 나중에 수정 시 필요)",
            guestbook_password_placeholder: "수정 시 사용할 비밀번호",
            guestbook_message: "메시지",
            guestbook_message_placeholder: "하고 싶은 말을 적어 주세요...",
            guestbook_submit: "글 남기기",
            guestbook_recent: "최근 방명록",
            guestbook_no_entries: "아직 방명록이 없습니다",
            guestbook_no_entries_message: "첫 번째 메시지를 남겨 보세요!",
            guestbook_enter_both: "이름과 메시지를 모두 입력해 주세요.",
            guestbook_failed: "작성에 실패했습니다. 다시 시도해 주세요.",
            error_title: "404",
            error_subtitle: "페이지를 찾을 수 없습니다",
            error_message: "요청하신 페이지를 찾을 수 없습니다. 주소를 확인하시거나 홈으로 돌아가 주세요.",
            error_return_home: "홈으로 돌아가기",
            footer_copyright: copyright(year),
            search_placeholder: "글 검색...",
            search_no_results: "검색 결과가 없습니다.",
            search_results_for: "검색 결과:",
            lang_switch_label: "언어",
            code_copy: "복사",
            code_copied: "복사 완료!",
            post_created: "작성",
            post_updated: "수정",
            graph_before: "변환 전",
            graph_after: "변환 후",
            sort_newest_first: "최신순",
            sort_oldest_first: "오래된순",
            sort_recently_updated: "최근 수정순",
            sort_least_updated: "오래된 수정순",
            post_views: "조회",
            post_likes: "좋아요",
            visitor_today: "오늘",
            visitor_total: "전체",
            visitor_visitors: "방문자",
            rate_limit: "요청이 너무 많습니다. 잠시 후 다시 시도해 주세요.",
        }
    }

    /// The Japanese texts.
    pub fn ja(year: i32) -> (r: Translations)
        ensures
            is_ja(r, year as int),
    {
        Translations {
            nav_posts: "記事",
            nav_blog: "ブログ",
            nav_review: "レビュー",
            nav_diary: "日記",
            nav_series: "シリーズ",
            nav_guestbook: "ゲストブック",
            nav_about_me: "プロフィール",
            nav_light_mode: "ライトモード",
            nav_dark_mode: "ダークモード",
            index_recent_posts: "最近の記事",
            index_no_recent_posts: "まだ記事がありません。",
            index_check_back: "新しい記事をお楽しみに！",
            blog_title: "ブログ",
            review_title: "レビュー",
            diary_title: "日記",
            filter_by_category: "カテゴリで絞り込み",
            filter_all: "すべて",
            no_posts_available: "まだ記事がありません",
            card_read_more: "続きを読む",
            post_back: "戻る",
            post_min_read: "分で読めます",
            post_share_article: "この記事をシェアする",
            post_back_to_top: "トップへ戻る",
            post_toc_title: "目次",
            post_not_found_title: "404",
            post_not_found_subtitle: "ページが見つかりません",
            post_not_found_message: "お探しのページは見つかりませんでした。URLをご確認いただくか、ホームへお戻りください。",
            post_return_home: "ホームへ戻る",
            comments_title: "コメント",
            comments_name: "名前",
            comments_password: "パスワード",
            comments_password_hint: "(任意、編集用)",
            comments_password_placeholder: "編集用パスワード",
            comments_comment: "コメント",
            comments_placeholder: "コメントを入力...",
            comments_submit: "コメントする",
            comments_be_first: "最初のコメントを書いてみましょう！",
            comments_enter_both: "名前とコメントを入力してください。",
            comments_failed_create: "コメントの投稿に失敗しました。",
            comments_error: "エラーが発生しました。",
            comments_enter_password_edit: "コメントを編集するにはパスワードを入力してください：",
            comments_edit_prompt: "コメントを編集：",
            comments_wrong_password: "パスワードが正しくないか、コメントが見つかりません。",
            comments_failed_edit: "コメントの編集に失敗しました。",
            comments_enter_password_delete: "コメントを削除するにはパスワードを入力してください：",
            comments_confirm_delete: "このコメントを削除してもよろしいですか？",
            series_title: "シリーズ",
            series_subtitle: "関連する記事をシリーズにまとめました。じっくり読んでみてください。",
            series_completed: "完結",
            series_ongoing: "連載中",
            series_posts_count: "記事",
            series_updated: "更新日:",
            series_view: "シリーズを見る",
            series_no_series: "まだシリーズがありません",
            series_no_series_message: "シリーズが作成されるとここに表示されます。お楽しみに！",
            series_last_updated: "最終更新:",
            series_part: "パート",
            series_no_posts: "このシリーズにはまだ記事がありません",
            series_no_posts_message: "このシリーズの記事は近日公開予定です！",
            series_view_all: "すべてのシリーズを見る",
            series_previous: "前へ",
            series_next: "次へ",
            guestbook_title: "ゲストブック",
            guestbook_subtitle: "お気軽にメッセージを残してください！ひとことでも大歓迎です。",
            guestbook_write_new: "メッセージを書く",
            guestbook_name: "名前",
            guestbook_name_placeholder: "お名前を入力",
            guestbook_password: "パスワード",
            guestbook_password_hint: "(任意、編集用)",
            guestbook_password_placeholder: "編集用パスワード",
            guestbook_message: "メッセージ",
            guestbook_message_placeholder: "メッセージを入力...",
            guestbook_submit: "投稿する",
            guestbook_recent: "最近の書き込み",
            guestbook_no_entries: "まだ書き込みがありません",
            guestbook_no_entries_message: "最初のメッセージを残してみましょう！",
            guestbook_enter_both: "名前とメッセージを入力してください。",
            guestbook_failed: "投稿に失敗しました。もう一度お試しください。",
            error_title: "404",
            error_subtitle: "ページが見つかりません",
            error_message: "お探しのページは見つかりませんでした。URLをご確認いただくか、ホームへお戻りください。",
            error_return_home: "ホームへ戻る",
            footer_copyright: copyright(year),
            search_placeholder: "記事を検索...",
            search_no_results: "検索結果が見つかりませんでした。",
            search_results_for: "検索結果:",
            lang_switch_label: "言語",
            code_copy: "コピー",
            code_copied: "コピーしました！",
            post_created: "作成",
            post_updated: "更新",
            graph_before: "変換前",
            graph_after: "変換後",
            sort_newest_first: "新しい順",
            sort_oldest_first: "古い順",
            sort_recently_updated: "最近更新順",
            sort_least_updated: "更新が古い順",
            post_views: "閲覧",
            post_likes: "いいね",
            visitor_today: "今日",
            visitor_total: "合計",
            visitor_visitors: "訪問者",
            rate_limit: "リクエストが多すぎます。しばらくしてからもう一度お試しください。",
        }
    }

}

} // verus!
